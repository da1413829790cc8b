use dashmap::DashMap;
use vstd::prelude::*;

verus! {

#[verifier::external_type_specification]
#[verifier::external_body]
#[verifier::reject_recursive_types(K)]
#[verifier::reject_recursive_types(V)]
#[verifier::reject_recursive_types(S)]
pub struct ExDashMap<K, V, S>(DashMap<K, V, S>);

/// Paths to inodes.
pub type PathMap = DashMap<String, u64>;

/// Inodes to paths.
pub type InodeMap = DashMap<u64, String>;

/// What a path-keyed concurrent map holds: each path with its inode.
pub uninterp spec fn path_index(m: DashMap<String, u64>) -> Map<Seq<char>, u64>;

/// What an inode-keyed concurrent map holds: each inode with its path.
pub uninterp spec fn inode_index(m: DashMap<u64, String>) -> Map<u64, Seq<char>>;

/// Relies on `DashMap::new`: a new map holds nothing.
#[verifier::external_body]
fn path_map_new() -> (r: PathMap)
    ensures
        path_index(r).dom().is_empty(),
{
    DashMap::new()
}

/// Relies on `DashMap::new`: a new map holds nothing.
#[verifier::external_body]
fn inode_map_new() -> (r: InodeMap)
    ensures
        inode_index(r).dom().is_empty(),
{
    DashMap::new()
}

/// Relies on `DashMap::get`: the value stored under the key, if any.
#[verifier::external_body]
fn path_map_get(m: &DashMap<String, u64>, k: &str) -> (r: Option<u64>)
    ensures
        r == (if path_index(*m).contains_key(k@) {
            Some(path_index(*m)[k@])
        } else {
            None::<u64>
        }),
{
    match m.get(k) {
        Some(e) => Some(*e.value()),
        None => None,
    }
}

/// Relies on `DashMap::get`: the value stored under the key, if any.
#[verifier::external_body]
fn inode_map_get(m: &DashMap<u64, String>, k: u64) -> (r: Option<String>)
    ensures
        match r {
            Some(p) => inode_index(*m).contains_key(k) && p@ == inode_index(*m)[k],
            None => !inode_index(*m).contains_key(k),
        },
{
    match m.get(&k) {
        Some(e) => Some(e.value().clone()),
        None => None,
    }
}

/// Relies on `DashMap::insert`: the key is bound to the value, other keys keep theirs.
#[verifier::external_body]
fn path_map_insert(m: &mut DashMap<String, u64>, k: String, v: u64)
    ensures
        path_index(*final(m)) == path_index(*old(m)).insert(k@, v),
{
    m.insert(k, v);
}

/// Relies on `DashMap::insert`: the key is bound to the value, other keys keep theirs.
#[verifier::external_body]
fn inode_map_insert(m: &mut DashMap<u64, String>, k: u64, v: String)
    ensures
        inode_index(*final(m)) == inode_index(*old(m)).insert(k, v@),
{
    m.insert(k, v);
}

/// Relies on `DashMap::remove`: the key leaves the map, and its value is handed back.
#[verifier::external_body]
fn path_map_remove(m: &mut DashMap<String, u64>, k: &str) -> (r: Option<u64>)
    ensures
        path_index(*final(m)) == path_index(*old(m)).remove(k@),
        r == (if path_index(*old(m)).contains_key(k@) {
            Some(path_index(*old(m))[k@])
        } else {
            None::<u64>
        }),
{
    match m.remove(k) {
        Some((_, v)) => Some(v),
        None => None,
    }
}

/// Relies on `DashMap::remove`: the key leaves the map, and its value is handed back.
#[verifier::external_body]
fn inode_map_remove(m: &mut DashMap<u64, String>, k: u64) -> (r: Option<String>)
    ensures
        inode_index(*final(m)) == inode_index(*old(m)).remove(k),
        match r {
            Some(p) => inode_index(*old(m)).contains_key(k) && p@ == inode_index(*old(m))[k],
            None => !inode_index(*old(m)).contains_key(k),
        },
{
    match m.remove(&k) {
        Some((_, v)) => Some(v),
        None => None,
    }
}

/// The inode that the mount root is bound to, for the whole life of a table.
pub const ROOT_INODE: u64 = 1;

/// The path of the mount root.
pub open spec fn root_path() -> Seq<char> {
    seq!['/']
}

/// The two directions of the map are inverse to each other, the root is bound
/// to inode 1, and every inode handed out so far lies below `next`.
pub open spec fn tables_wf(paths: Map<Seq<char>, u64>, inodes: Map<u64, Seq<char>>, next: u64) -> bool {
    &&& paths.contains_key(root_path())
    &&& paths[root_path()] == ROOT_INODE
    &&& inodes.contains_key(ROOT_INODE)
    &&& inodes[ROOT_INODE] == root_path()
    &&& forall|p: Seq<char>| #[trigger]
        paths.contains_key(p) ==> inodes.contains_key(paths[p]) && inodes[paths[p]] == p
    &&& forall|i: u64| #[trigger]
        inodes.contains_key(i) ==> paths.contains_key(inodes[i]) && paths[inodes[i]] == i
    &&& forall|i: u64| #[trigger] inodes.contains_key(i) ==> 1 <= i < next
    &&& next >= 2
}

/// The abstract state of an inode table: both directions of the map and the
/// inode that the next new path receives.
pub struct TableModel {
    pub paths: Map<Seq<char>, u64>,
    pub inodes: Map<u64, Seq<char>>,
    pub next: u64,
}

impl TableModel {
    /// Both directions agree and the root is bound.
    pub open spec fn wf(self) -> bool {
        tables_wf(self.paths, self.inodes, self.next)
    }

    /// The state after resolving `p`, and the inode handed back: the bound
    /// inode when `p` has one, else `next`, newly bound to `p`.
    pub open spec fn resolve(self, p: Seq<char>) -> (TableModel, u64) {
        if self.paths.contains_key(p) {
            (self, self.paths[p])
        } else {
            (
                TableModel {
                    paths: self.paths.insert(p, self.next),
                    inodes: self.inodes.insert(self.next, p),
                    next: (self.next + 1) as u64,
                },
                self.next,
            )
        }
    }
}

/// Resolving a path a second time, with nothing forgotten in between, hands back
/// the same inode and changes nothing.
pub proof fn lemma_resolve_idempotent(m: TableModel, p: Seq<char>)
    requires
        m.wf(),
        m.next < u64::MAX,
    ensures
        m.resolve(p).0.resolve(p) == m.resolve(p),
        m.resolve(p).0.resolve(p).1 == m.resolve(p).1,
{
}

/// In every well-formed state, two different bound paths have different inodes
/// and two different bound inodes have different paths.
pub proof fn lemma_bijection(m: TableModel)
    requires
        m.wf(),
    ensures
        forall|p1: Seq<char>, p2: Seq<char>|
            p1 != p2 && m.paths.contains_key(p1) && m.paths.contains_key(p2) ==> #[trigger] m.paths[p1]
                != #[trigger] m.paths[p2],
        forall|i1: u64, i2: u64|
            i1 != i2 && m.inodes.contains_key(i1) && m.inodes.contains_key(i2) ==> #[trigger] m.inodes[i1]
                != #[trigger] m.inodes[i2],
{
    assert forall|p1: Seq<char>, p2: Seq<char>|
        p1 != p2 && m.paths.contains_key(p1) && m.paths.contains_key(p2) implies #[trigger] m.paths[p1]
            != #[trigger] m.paths[p2] by {
        assert(m.inodes[m.paths[p1]] == p1);
        assert(m.inodes[m.paths[p2]] == p2);
    }
    assert forall|i1: u64, i2: u64|
        i1 != i2 && m.inodes.contains_key(i1) && m.inodes.contains_key(i2) implies #[trigger] m.inodes[i1]
            != #[trigger] m.inodes[i2] by {
        assert(m.paths[m.inodes[i1]] == i1);
        assert(m.paths[m.inodes[i2]] == i2);
    }
}

/// In every well-formed state the root path is bound to inode 1 and inode 1 to
/// the root path.
pub proof fn lemma_root_bound(m: TableModel)
    requires
        m.wf(),
    ensures
        m.paths.contains_key(root_path()),
        m.paths[root_path()] == ROOT_INODE,
        m.inodes[ROOT_INODE] == root_path(),
{
}

/// The bidirectional map between paths and inode numbers.
pub struct InodeTable {
    path_to_inode: DashMap<String, u64>,
    inode_to_path: DashMap<u64, String>,
    next_inode: u64,
}

impl InodeTable {
    /// Each bound path with its inode.
    pub closed spec fn paths(&self) -> Map<Seq<char>, u64> {
        path_index(self.path_to_inode)
    }

    /// Each bound inode with its path.
    pub closed spec fn inodes(&self) -> Map<u64, Seq<char>> {
        inode_index(self.inode_to_path)
    }

    /// The inode that the next new path receives.
    pub closed spec fn next(&self) -> u64 {
        self.next_inode
    }

    /// The table as an abstract state.
    pub open spec fn model(&self) -> TableModel {
        TableModel { paths: self.paths(), inodes: self.inodes(), next: self.next() }
    }

    /// Both directions agree and the root is bound.
    pub open spec fn wf(&self) -> bool {
        tables_wf(self.paths(), self.inodes(), self.next())
    }

    /// Whether one more inode can still be handed out.
    pub open spec fn can_allocate(&self) -> bool {
        self.next() < u64::MAX
    }

    /// A table that binds the root `/` to inode 1 and nothing else.
    pub fn new() -> (r: Self)
        ensures
            r.wf(),
            r.paths() == map![root_path() => ROOT_INODE],
            r.inodes() == map![ROOT_INODE => root_path()],
            r.next() == 2,
    {
        let mut table = InodeTable {
            path_to_inode: path_map_new(),
            inode_to_path: inode_map_new(),
            next_inode: 2,
        };
        let root = "/".to_owned();
        proof {
            reveal_strlit("/");
        }
        assert(root@ == root_path());
        path_map_insert(&mut table.path_to_inode, root.clone(), ROOT_INODE);
        inode_map_insert(&mut table.inode_to_path, ROOT_INODE, root);
        assert(table.paths() =~= map![root_path() => ROOT_INODE]);
        assert(table.inodes() =~= map![ROOT_INODE => root_path()]);
        table
    }

    /// The inode bound to `path`, binding the next unused inode to it first
    /// when it has none.
    pub fn get_or_create_inode(&mut self, path: &str) -> (r: u64)
        requires
            old(self).wf(),
            old(self).can_allocate(),
        ensures
            final(self).wf(),
            (final(self).model(), r) == old(self).model().resolve(path@),
            final(self).paths().contains_key(path@),
            final(self).paths()[path@] == r,
    {
        match path_map_get(&self.path_to_inode, path) {
            Some(inode) => inode,
            None => {
                let inode = self.next_inode;
                let owned = path.to_owned();
                path_map_insert(&mut self.path_to_inode, owned.clone(), inode);
                inode_map_insert(&mut self.inode_to_path, inode, owned);
                self.next_inode = inode + 1;
                proof {
                    let ps = self.paths();
                    let is = self.inodes();
                    let ops = old(self).paths();
                    let ois = old(self).inodes();
                    assert(!ois.contains_key(inode));
                    assert forall|p: Seq<char>| #[trigger] ps.contains_key(p) implies is.contains_key(
                        ps[p],
                    ) && is[ps[p]] == p by {
                        if p != path@ {
                            assert(ops.contains_key(p));
                            assert(ois.contains_key(ops[p]));
                        }
                    }
                    assert forall|i: u64| #[trigger] is.contains_key(i) implies ps.contains_key(
                        is[i],
                    ) && ps[is[i]] == i by {
                        if i != inode {
                            assert(ois.contains_key(i));
                            assert(ops.contains_key(ois[i]));
                        }
                    }
                }
                inode
            },
        }
    }

    /// The inode that the next new path receives.
    pub fn next_value(&self) -> (r: u64)
        ensures
            r == self.next(),
    {
        self.next_inode
    }

    /// The inode bound to `path`, without binding anything.
    pub fn get_inode(&self, path: &str) -> (r: Option<u64>)
        ensures
            r == (if self.paths().contains_key(path@) {
                Some(self.paths()[path@])
            } else {
                None::<u64>
            }),
    {
        path_map_get(&self.path_to_inode, path)
    }

    /// The path bound to `inode`.
    pub fn get_path(&self, inode: u64) -> (r: Option<String>)
        ensures
            match r {
                Some(p) => self.inodes().contains_key(inode) && p@ == self.inodes()[inode],
                None => !self.inodes().contains_key(inode),
            },
    {
        inode_map_get(&self.inode_to_path, inode)
    }

    /// Drops the binding of `inode` in both directions; the root stays bound.
    pub fn remove(&mut self, inode: u64)
        requires
            old(self).wf(),
        ensures
            final(self).wf(),
            final(self).next() == old(self).next(),
            inode != ROOT_INODE && old(self).inodes().contains_key(inode) ==> {
                &&& final(self).inodes() == old(self).inodes().remove(inode)
                &&& final(self).paths() == old(self).paths().remove(old(self).inodes()[inode])
            },
            !(inode != ROOT_INODE && old(self).inodes().contains_key(inode)) ==> {
                &&& final(self).inodes() == old(self).inodes()
                &&& final(self).paths() == old(self).paths()
            },
    {
        if inode == ROOT_INODE {
            return;
        }
        match inode_map_remove(&mut self.inode_to_path, inode) {
            Some(path) => {
                path_map_remove(&mut self.path_to_inode, path.as_str());
                proof {
                    let ops = old(self).paths();
                    let ois = old(self).inodes();
                    let ps = self.paths();
                    let is = self.inodes();
                    assert(ops.contains_key(path@) && ops[path@] == inode);
                    assert forall|p: Seq<char>| #[trigger] ps.contains_key(p) implies is.contains_key(
                        ps[p],
                    ) && is[ps[p]] == p by {
                        assert(ops.contains_key(p));
                        assert(ois.contains_key(ops[p]));
                    }
                    assert forall|i: u64| #[trigger] is.contains_key(i) implies ps.contains_key(
                        is[i],
                    ) && ps[is[i]] == i by {
                        assert(ois.contains_key(i));
                        assert(ops.contains_key(ois[i]));
                    }
                    assert(root_path() != path@);
                }
            },
            None => {},
        }
    }

    /// Drops the binding of `path` in both directions; the root stays bound.
    pub fn remove_path(&mut self, path: &str)
        requires
            old(self).wf(),
        ensures
            final(self).wf(),
            final(self).next() == old(self).next(),
            path@ != root_path() && old(self).paths().contains_key(path@) ==> {
                &&& final(self).paths() == old(self).paths().remove(path@)
                &&& final(self).inodes() == old(self).inodes().remove(old(self).paths()[path@])
            },
            !(path@ != root_path() && old(self).paths().contains_key(path@)) ==> {
                &&& final(self).inodes() == old(self).inodes()
                &&& final(self).paths() == old(self).paths()
            },
    {
        match path_map_get(&self.path_to_inode, path) {
            Some(inode) => {
                if inode == ROOT_INODE {
                    return;
                }
                self.remove(inode);
            },
            None => {},
        }
    }
}

impl Default for InodeTable {
    fn default() -> (r: Self)
        ensures
            r.wf(),
            r.paths() == map![root_path() => ROOT_INODE],
            r.inodes() == map![ROOT_INODE => root_path()],
    {
        InodeTable::new()
    }
}

} // verus!
