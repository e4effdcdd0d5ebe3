use crate::ustar::{read_post, FileType, Header, HeaderView, UstarDriver};
use std::collections::VecDeque;
use vstd::prelude::*;
use vstd::string::StrSliceExecFns;

verus! {

/// Why a file-system operation failed.
#[derive(Debug, Clone, Copy, PartialEq, Eq, Structural)]
pub enum Error {
    NotFound,
    FileAlreadyExist,
    NotAFolder,
    NotAMountpoint,
    NotAReadableFile,
}

/// Relies on `String::push`: the character is appended at the end.
#[verifier::external_body]
pub(crate) fn push_char(s: &mut String, c: char)
    ensures
        final(s)@ == old(s)@.push(c),
{
    s.push(c);
}

/// The components read so far from the characters of a path, and the
/// component being read. A `/` closes a non-empty component; any other
/// character, and a `/` that starts a component, is added to it.
pub open spec fn split_state(s: Seq<char>) -> (Seq<Seq<char>>, Seq<char>)
    decreases s.len(),
{
    if s.len() == 0 {
        (Seq::empty(), Seq::empty())
    } else {
        let (done, cur) = split_state(s.drop_last());
        if s.last() == '/' && cur.len() > 0 {
            (done.push(cur), Seq::empty())
        } else {
            (done, cur.push(s.last()))
        }
    }
}

/// The components of a path, first to last.
pub open spec fn path_components(s: Seq<char>) -> Seq<Seq<char>> {
    let (done, cur) = split_state(s);
    if cur.len() > 0 {
        done.push(cur)
    } else {
        done
    }
}

/// A path, as the sequence of its components.
#[derive(Debug, Clone)]
pub struct PathBuf {
    components: VecDeque<String>,
}

impl PathBuf {
    /// The components that are left, first to last.
    pub closed spec fn components(&self) -> Seq<Seq<char>> {
        self.components@.map_values(|c: String| c@)
    }

    /// Splits `value` into its components.
    pub fn parse(value: &str) -> (r: PathBuf)
        ensures
            r.components() == path_components(value@),
    {
        let n = value.unicode_len();
        let mut components: VecDeque<String> = VecDeque::new();
        let mut current = String::new();
        let mut current_len: usize = 0;
        let mut i: usize = 0;
        while i < n
            invariant
                n == value@.len(),
                i <= n,
                current_len == current@.len(),
                current_len <= i,
                (components@.map_values(|c: String| c@), current@) == split_state(
                    value@.subrange(0, i as int),
                ),
            decreases n - i,
        {
            let c = value.get_char(i);
            proof {
                assert(value@.subrange(0, i + 1).drop_last() =~= value@.subrange(0, i as int));
            }
            if c == '/' && current_len > 0 {
                let ghost before = components@;
                components.push_back(current);
                current = String::new();
                current_len = 0;
                proof {
                    assert(components@.map_values(|c: String| c@) =~= before.map_values(
                        |c: String| c@,
                    ).push(before.push(components@.last()).last()@));
                }
            } else {
                push_char(&mut current, c);
                current_len = current_len + 1;
            }
            i = i + 1;
        }
        proof {
            assert(value@.subrange(0, n as int) =~= value@);
        }
        if current_len > 0 {
            let ghost before = components@;
            components.push_back(current);
            proof {
                assert(components@.map_values(|c: String| c@) =~= before.map_values(|c: String| c@).push(
                    components@.last()@,
                ));
            }
        }
        PathBuf { components }
    }

    pub fn is_empty(&self) -> (r: bool)
        ensures
            r == (self.components().len() == 0),
    {
        self.components.len() == 0
    }

    /// Takes the first component off the path.
    pub fn split_first_component(&mut self) -> (r: Option<String>)
        ensures
            old(self).components().len() == 0 ==> r is None
                && final(self).components() == old(self).components(),
            old(self).components().len() > 0 ==> (r matches Some(c) && c@ == old(self).components()[0])
                && final(self).components() == old(self).components().drop_first(),
    {
        let r = self.components.pop_front();
        proof {
            if r.is_some() {
                assert(self.components() =~= old(self).components().drop_first());
            }
        }
        r
    }

    /// Exactly one component is left.
    pub fn is_basename(&self) -> (r: bool)
        ensures
            r == (self.components().len() == 1),
    {
        self.components.len() == 1
    }
}

impl<'a> From<&'a str> for PathBuf {
    /// Splits `value` into its components (see `PathBuf::parse`).
    fn from(value: &'a str) -> PathBuf {
        PathBuf::parse(value)
    }
}

impl<'a> vstd::std_specs::convert::FromSpecImpl<&'a str> for PathBuf {
    open spec fn obeys_from_spec() -> bool {
        false
    }

    open spec fn from_spec(v: &'a str) -> PathBuf {
        arbitrary()
    }
}

/// The entries of a folder, by name, held in a hashbrown map.
#[verifier::external_body]
pub struct Folder {
    entries: hashbrown::HashMap<String, Inode>,
}

/// What a folder holds: each entry's name and node.
pub uninterp spec fn folder_entries(f: Folder) -> Map<Seq<char>, Inode>;

/// Relies on `hashbrown::HashMap::new`: the map starts empty.
#[verifier::external_body]
fn folder_new() -> (r: Folder)
    ensures
        folder_entries(r).dom() == Set::<Seq<char>>::empty(),
{
    Folder { entries: hashbrown::HashMap::new() }
}

/// Relies on `hashbrown::HashMap::get`: the node stored under the name, if any.
#[verifier::external_body]
fn folder_get<'a>(f: &'a Folder, name: &str) -> (r: Option<&'a Inode>)
    ensures
        match r {
            Some(n) => folder_entries(*f).contains_key(name@) && folder_entries(*f)[name@] == *n,
            None => !folder_entries(*f).contains_key(name@),
        },
{
    f.entries.get(name)
}

/// Relies on `hashbrown::HashMap::get_mut`: a mutable borrow of the node stored
/// under the name; what is written through it is what the map then holds.
#[verifier::external_body]
fn folder_get_mut<'a>(f: &'a mut Folder, name: &str) -> (r: &'a mut Inode)
    requires
        folder_entries(*old(f)).contains_key(name@),
    ensures
        *r == folder_entries(*old(f))[name@],
        folder_entries(*final(f)) == folder_entries(*old(f)).insert(name@, *final(r)),
{
    f.entries.get_mut(name).unwrap()
}

/// Relies on `hashbrown::HashMap::try_insert`: the node is stored only when the
/// name is not present yet; otherwise the map is left as it was.
#[verifier::external_body]
fn folder_try_insert(f: &mut Folder, name: String, node: Inode) -> (r: bool)
    ensures
        r == !folder_entries(*old(f)).contains_key(name@),
        r ==> folder_entries(*final(f)) == folder_entries(*old(f)).insert(name@, node),
        !r ==> folder_entries(*final(f)) == folder_entries(*old(f)),
{
    f.entries.try_insert(name, node).is_ok()
}

/// What a node of the file tree is.
pub enum InodeType {
    RegularFile,
    Folder(Folder),
    MountPoint(Box<MountPoint>),
}

/// A node of the file tree, with the number its driver knows it by.
pub struct Inode {
    pub node_type: InodeType,
    pub id: usize,
}

/// A file system mounted in the tree: its root and the driver that reads it.
pub struct MountPoint {
    pub root: Inode,
    pub driver: UstarDriver,
}

impl MountPoint {
    pub fn new(root: Inode, driver: UstarDriver) -> (r: MountPoint)
        ensures
            r.root == root,
            r.driver == driver,
    {
        MountPoint { root, driver }
    }
}

impl Inode {
    /// The entries of a folder; none for any other node.
    pub open spec fn entries(&self) -> Map<Seq<char>, Inode> {
        match self.node_type {
            InodeType::Folder(f) => folder_entries(f),
            _ => Map::empty(),
        }
    }

    pub fn new_folder(local_id: usize) -> (r: Inode)
        ensures
            r.id == local_id,
            r.node_type is Folder,
            r.entries().dom() == Set::<Seq<char>>::empty(),
    {
        Inode { node_type: InodeType::Folder(folder_new()), id: local_id }
    }

    pub fn new_file(local_id: usize) -> (r: Inode)
        ensures
            r.id == local_id,
            r.node_type is RegularFile,
    {
        Inode { node_type: InodeType::RegularFile, id: local_id }
    }

    pub fn new_mountpoint(root: Inode, driver: UstarDriver, id: usize) -> (r: Inode)
        ensures
            r.id == id,
            r.node_type matches InodeType::MountPoint(m) && m.root == root && m.driver == driver,
    {
        Inode { node_type: InodeType::MountPoint(Box::new(MountPoint::new(root, driver))), id }
    }

    /// The node named `name` in this folder, or in the root of this mount
    /// point.
    pub fn search_in_folder(&self, name: &str) -> (r: Result<&Inode, Error>)
        ensures
            match r {
                Ok(n) => lookup(*self, name@) == Ok::<Inode, Error>(*n),
                Err(e) => lookup(*self, name@) == Err::<Inode, Error>(e),
            },
        decreases self,
    {
        match &self.node_type {
            InodeType::Folder(content) => match folder_get(content, name) {
                Some(n) => Ok(n),
                None => Err(Error::NotFound),
            },
            InodeType::MountPoint(mountpoint) => mountpoint.root.search_in_folder(name),
            _ => Err(Error::NotAFolder),
        }
    }

    /// A mutable borrow of the node named `name` in this folder, or in the
    /// root of this mount point.
    pub fn search_in_folder_mut(&mut self, name: &str) -> (r: Result<&mut Inode, Error>)
        ensures
            match r {
                Ok(n) => lookup(*old(self), name@) == Ok::<Inode, Error>(*n),
                Err(e) => lookup(*old(self), name@) == Err::<Inode, Error>(e),
            },
        decreases *old(self),
    {
        match &mut self.node_type {
            InodeType::Folder(content) => {
                if folder_get(content, name).is_none() {
                    return Err(Error::NotFound);
                }
                Ok(folder_get_mut(content, name))
            },
            InodeType::MountPoint(mountpoint) => mountpoint.root.search_in_folder_mut(name),
            _ => Err(Error::NotAFolder),
        }
    }

    /// Mount points are entered through their root folder, so a search that
    /// starts at a node as a mount point finds nothing.
    pub fn search_in_mountpoint(&self, name: &str) -> (r: Result<&Inode, Error>)
        ensures
            r matches Err(e) && e == Error::NotAMountpoint,
    {
        Err(Error::NotAMountpoint)
    }

    /// Adds `file` to this folder under `name`.
    pub fn add_to_folder(&mut self, file: Inode, name: String) -> (r: Result<(), Error>)
        ensures
            final(self).id == old(self).id,
            match old(self).node_type {
                InodeType::Folder(_) => if old(self).entries().contains_key(name@) {
                    &&& r == Err::<(), Error>(Error::FileAlreadyExist)
                    &&& final(self).node_type is Folder
                    &&& final(self).entries() == old(self).entries()
                } else {
                    &&& r == Ok::<(), Error>(())
                    &&& final(self).node_type is Folder
                    &&& final(self).entries() == old(self).entries().insert(name@, file)
                },
                _ => r == Err::<(), Error>(Error::NotAFolder) && *final(self) == *old(self),
            },
    {
        match &mut self.node_type {
            InodeType::Folder(content) => {
                if folder_try_insert(content, name, file) {
                    Ok(())
                } else {
                    Err(Error::FileAlreadyExist)
                }
            },
            _ => Err(Error::NotAFolder),
        }
    }

    /// Adds `file` under `name` to the folder reached from this one through
    /// the components `path[depth..]`.
    pub fn add_at_path(&mut self, path: &Vec<String>, depth: usize, file: Inode, name: String) -> (r: Result<
        (),
        Error,
    >)
        requires
            depth <= path@.len(),
        ensures
            r is Ok <==> can_add_at(*old(self), path@.map_values(|c: String| c@), depth as int, name@),
            r is Ok ==> added_at(
                *old(self),
                *final(self),
                path@.map_values(|c: String| c@),
                depth as int,
                name@,
                file,
            ),
        decreases path@.len() - depth,
    {
        if depth == path.len() {
            return self.add_to_folder(file, name);
        }
        match &mut self.node_type {
            InodeType::Folder(content) => {
                match folder_get(content, path[depth].as_str()) {
                    None => {
                        return Err(Error::NotFound);
                    },
                    Some(_) => {},
                }
                let child = folder_get_mut(content, path[depth].as_str());
                child.add_at_path(path, depth + 1, file, name)
            },
            _ => Err(Error::NotAFolder),
        }
    }

    pub fn get_id(&self) -> (r: usize)
        ensures
            r == self.id,
    {
        self.id
    }

    pub fn get_mountpoint(&self) -> (r: Result<&MountPoint, Error>)
        ensures
            match r {
                Ok(m) => self.node_type matches InodeType::MountPoint(b) && *b == *m,
                Err(e) => !(self.node_type is MountPoint) && e == Error::NotAMountpoint,
            },
    {
        match &self.node_type {
            InodeType::MountPoint(mountpoint) => Ok(mountpoint),
            _ => Err(Error::NotAMountpoint),
        }
    }

    pub fn get_mountpoint_mut(&mut self) -> (r: Result<&mut MountPoint, Error>)
        ensures
            match r {
                Ok(m) => old(self).node_type matches InodeType::MountPoint(b) && *b == *m,
                Err(e) => !(old(self).node_type is MountPoint) && e == Error::NotAMountpoint,
            },
    {
        match &mut self.node_type {
            InodeType::MountPoint(mountpoint) => Ok(mountpoint),
            _ => Err(Error::NotAMountpoint),
        }
    }

    /// The node that `path` leads to from this one.
    pub fn find(&self, path: PathBuf) -> (r: Result<&Inode, Error>)
        ensures
            match r {
                Ok(n) => find_path(*self, path.components()) == Ok::<Inode, Error>(*n),
                Err(e) => find_path(*self, path.components()) == Err::<Inode, Error>(e),
            },
        decreases path.components().len(),
    {
        let mut path = path;
        let ghost comps = path.components();
        match path.split_first_component() {
            Some(component) => {
                let next = match self.search_in_folder(component.as_str()) {
                    Ok(n) => n,
                    Err(e) => {
                        return Err(e);
                    },
                };
                next.find(path)
            },
            None => Ok(self),
        }
    }

    /// The size of this node's file, as the mount point's driver reports it.
    pub fn get_size(&self, mountpoint: &MountPoint) -> (r: Result<usize, Error>)
        ensures
            match r {
                Ok(n) => mountpoint.driver.headers().contains_key(self.id) && n
                    == mountpoint.driver.headers()[self.id].1,
                Err(e) => !mountpoint.driver.headers().contains_key(self.id) && e == Error::NotFound,
            },
    {
        mountpoint.driver.get_size(self.id)
    }

    /// Bytes of `node`'s file, as the mount point's driver reads them.
    pub fn read(&self, mountpoint: &MountPoint, node: &Inode, pos: usize, requested_amount: usize) -> (r:
        Result<Vec<u8>, Error>)
        ensures
            read_post(mountpoint.driver, node.id, pos, requested_amount, r),
    {
        mountpoint.driver.read(node.id, pos, requested_amount)
    }
}

/// The node named `name` in folder `node`, or in the root of mount point
/// `node`.
pub open spec fn lookup(node: Inode, name: Seq<char>) -> Result<Inode, Error>
    decreases node,
{
    match node.node_type {
        InodeType::Folder(f) => if folder_entries(f).contains_key(name) {
            Ok(folder_entries(f)[name])
        } else {
            Err(Error::NotFound)
        },
        InodeType::MountPoint(m) => lookup(m.root, name),
        InodeType::RegularFile => Err(Error::NotAFolder),
    }
}

/// The node that the components lead to from `node`, one lookup each.
pub open spec fn find_path(node: Inode, comps: Seq<Seq<char>>) -> Result<Inode, Error>
    decreases comps.len(),
{
    if comps.len() == 0 {
        Ok(node)
    } else {
        match lookup(node, comps[0]) {
            Ok(next) => find_path(next, comps.drop_first()),
            Err(e) => Err(e),
        }
    }
}

/// The components `path[depth..]` lead, through folders only, to a folder
/// that has no entry named `name`.
pub open spec fn can_add_at(node: Inode, path: Seq<Seq<char>>, depth: int, name: Seq<char>) -> bool
    decreases path.len() - depth,
{
    &&& node.node_type is Folder
    &&& if depth >= path.len() {
        !node.entries().contains_key(name)
    } else {
        node.entries().contains_key(path[depth]) && can_add_at(node.entries()[path[depth]], path, depth + 1, name)
    }
}

/// `after` is `before` with `file` added under `name` to the folder that the
/// components `path[depth..]` lead to, through folders only; all else is kept.
pub open spec fn added_at(
    before: Inode,
    after: Inode,
    path: Seq<Seq<char>>,
    depth: int,
    name: Seq<char>,
    file: Inode,
) -> bool
    decreases path.len() - depth,
{
    &&& after.id == before.id
    &&& before.node_type is Folder
    &&& after.node_type is Folder
    &&& if depth >= path.len() {
        &&& !before.entries().contains_key(name)
        &&& after.entries() == before.entries().insert(name, file)
    } else {
        let k = path[depth];
        &&& before.entries().contains_key(k)
        &&& after.entries() == before.entries().insert(k, after.entries()[k])
        &&& added_at(before.entries()[k], after.entries()[k], path, depth + 1, name, file)
    }
}

/// What a sequence of headers say.
pub open spec fn header_views(headers: Seq<Header>) -> Seq<HeaderView> {
    headers.map_values(|h: Header| h@)
}

/// The view of the header recorded for the root folder.
pub open spec fn root_header_view() -> HeaderView {
    (Seq::empty(), 0, FileType::Folder, 0)
}

/// How many of the first `n` headers are regular files or folders.
pub open spec fn kept_before(hs: Seq<HeaderView>, n: int) -> nat
    decreases n,
{
    if n <= 0 {
        0
    } else {
        kept_before(hs, n - 1) + if hs[n - 1].2 == FileType::Other {
            0nat
        } else {
            1nat
        }
    }
}

/// The number a header gets: regular files and folders are numbered 1, 2, ...
/// in order (the root is 0).
pub open spec fn header_id(hs: Seq<HeaderView>, k: int) -> usize {
    (kept_before(hs, k) + 1) as usize
}

/// The driver's record after the first `n` headers: the root under 0, and
/// each regular file or folder under its number.
pub open spec fn driver_map(hs: Seq<HeaderView>, n: int) -> Map<usize, HeaderView>
    decreases n,
{
    if n <= 0 {
        map![0usize => root_header_view()]
    } else if hs[n - 1].2 == FileType::Other {
        driver_map(hs, n - 1)
    } else {
        driver_map(hs, n - 1).insert(header_id(hs, n - 1), hs[n - 1])
    }
}

/// `node` is the fresh node made for header `h` under number `id`: a regular
/// file, or an empty folder.
pub open spec fn node_made(h: HeaderView, id: usize, node: Inode) -> bool {
    &&& node.id == id
    &&& (h.2 == FileType::RegularFile ==> node.node_type is RegularFile)
    &&& (h.2 == FileType::Folder ==> node.node_type is Folder && node.entries().dom() == Set::<
        Seq<char>,
    >::empty())
}

/// The root folder the tree starts from.
pub open spec fn empty_root(t: Inode) -> bool {
    t.id == 0 && t.node_type is Folder && t.entries().dom() == Set::<Seq<char>>::empty()
}

/// Header `h` with number `id` turns tree `before` into `after`: a header of
/// another kind leaves it as it is; a regular file or folder is added under
/// the last component of its path, in the folder its other components lead to.
pub open spec fn build_step(before: Inode, after: Inode, h: HeaderView, id: usize) -> bool {
    let c = path_components(h.0);
    &&& c.len() > 0
    &&& if h.2 == FileType::Other {
        after == before
    } else {
        &&& can_add_at(before, c.drop_last(), 0, c.last())
        &&& exists|node: Inode|
            node_made(h, id, node) && #[trigger] added_at(before, after, c.drop_last(), 0, c.last(), node)
    }
}

/// Header `h` cannot be placed in tree `t`: its path is empty, or it is a
/// regular file or folder whose parent folder is missing or already has an
/// entry of that name.
pub open spec fn step_fails(t: Inode, h: HeaderView) -> bool {
    let c = path_components(h.0);
    c.len() == 0 || (h.2 != FileType::Other && !can_add_at(t, c.drop_last(), 0, c.last()))
}

/// `trees` are the trees after 0, 1, ..., `n` headers, starting from an empty
/// root folder.
pub open spec fn build_trace(trees: Seq<Inode>, hs: Seq<HeaderView>, n: int) -> bool {
    &&& trees.len() == n + 1
    &&& empty_root(trees[0])
    &&& forall|k: int| 0 <= k < n ==> #[trigger] build_step(trees[k], trees[k + 1], hs[k], header_id(hs, k))
}

/// Builds the file tree of an archive: a mount point (number 0) over a root
/// folder (number 0), with each folder and regular file of `headers`, in
/// order, placed by its path and recorded in the driver under the next
/// number; headers of other kinds are skipped. Fails at the first header whose
/// path is empty, or that is a folder or regular file whose parent folder does
/// not exist or already has an entry of that name.
pub fn headers_to_fs(headers: Vec<Header>, data: Vec<u8>) -> (r: Result<Inode, Error>)
    ensures
        ({
            let hs = header_views(headers@);
            match r {
                Ok(m) => exists|trees: Seq<Inode>|
                    #[trigger] build_trace(trees, hs, hs.len() as int) && m.id == 0 && (
                    m.node_type matches InodeType::MountPoint(b) && b.root == trees.last() && b.driver.bytes()
                        == data@ && b.driver.headers() == driver_map(hs, hs.len() as int)),
                Err(_) => exists|trees: Seq<Inode>, j: int|
                    0 <= j < hs.len() && #[trigger] build_trace(trees, hs, j) && step_fails(trees.last(), hs[j]),
            }
        }),
{
    let ghost hs = header_views(headers@);
    let ghost bytes = data@;
    let total = headers.len();
    let mut driver = UstarDriver::new(data);
    let mut root = Inode::new_folder(0);
    let root_header = Header { name: String::new(), size: 0, file_type: FileType::Folder, start_addr: 0 };
    driver.insert_header(0, root_header);
    proof {
        assert(driver.headers() =~= driver_map(hs, 0));
    }
    let ghost mut trees: Seq<Inode> = seq![root];
    let mut done: usize = 0;
    let mut kept: usize = 0;
    let mut remaining = headers;
    while remaining.len() > 0
        invariant
            hs == header_views(headers@),
            total == hs.len(),
            done <= total,
            header_views(remaining@) == hs.subrange(done as int, total as int),
            kept == kept_before(hs, done as int),
            kept <= done,
            build_trace(trees, hs, done as int),
            trees.last() == root,
            driver.bytes() == bytes,
            driver.headers() == driver_map(hs, done as int),
        decreases remaining@.len(),
    {
        let ghost before = remaining@;
        proof {
            assert(header_views(before).len() == total - done);
            assert(done < total);
            assert(header_views(before)[0] == hs.subrange(done as int, total as int)[0]);
        }
        let header = remaining.remove(0);
        proof {
            assert forall|k: int| 0 <= k < remaining@.len() implies (#[trigger] remaining@[k])@ == hs[done + 1 + k] by {
                assert(remaining@[k] == before[k + 1]);
                assert(header_views(before)[k + 1] == hs.subrange(done as int, total as int)[k + 1]);
            }
            assert(header_views(remaining@) =~= hs.subrange(done + 1, total as int));
        }
        let ghost hv = header@;
        let ghost c = path_components(hv.0);
        let mut path = PathBuf::parse(header.name.as_str());
        let mut parents: Vec<String> = Vec::new();
        if path.is_empty() {
            proof {
                assert(step_fails(trees.last(), hs[done as int]));
                assert(build_trace(trees, hs, done as int));
            }
            return Err(Error::NotFound);
        }
        while !path.is_basename()
            invariant
                path.components().len() >= 1,
                parents@.map_values(|p: String| p@) + path.components() == c,
            decreases path.components().len(),
        {
            let ghost before = parents@;
            let ghost rest = path.components();
            match path.split_first_component() {
                Some(p) => {
                    parents.push(p);
                    proof {
                        assert(parents@.map_values(|p: String| p@) =~= before.map_values(|p: String| p@).push(
                            rest[0],
                        ));
                        assert(parents@.map_values(|p: String| p@) + path.components() =~= before.map_values(
                            |p: String| p@,
                        ) + rest);
                    }
                },
                None => {
                    proof {
                        assert(false);
                    }
                },
            }
        }
        let ghost pv = parents@.map_values(|p: String| p@);
        let ghost last = path.components();
        let name = match path.split_first_component() {
            Some(n) => n,
            None => {
                proof {
                    assert(false);
                }
                return Err(Error::NotFound);
            },
        };
        proof {
            assert(pv + last == c);
            assert(last.len() == 1);
            assert(c.drop_last() =~= pv);
            assert(c.last() == name@);
        }
        let id = kept + 1;
        let node = match header.file_type {
            FileType::RegularFile => Some(Inode::new_file(id)),
            FileType::Folder => Some(Inode::new_folder(id)),
            FileType::Other => None,
        };
        match node {
            None => {
                proof {
                    let t2 = trees.push(root);
                    assert(build_step(trees.last(), root, hs[done as int], header_id(hs, done as int)));
                    assert forall|k: int| 0 <= k < done + 1 implies #[trigger] build_step(
                        t2[k],
                        t2[k + 1],
                        hs[k],
                        header_id(hs, k),
                    ) by {
                        if k < done {
                            assert(t2[k] == trees[k] && t2[k + 1] == trees[k + 1]);
                        }
                    }
                    trees = t2;
                    assert(driver.headers() == driver_map(hs, done + 1));
                }
            },
            Some(node) => {
                let ghost nv = node;
                let ghost old_root = root;
                driver.insert_header(id, header);
                match root.add_at_path(&parents, 0, node, name) {
                    Ok(()) => {},
                    Err(e) => {
                        proof {
                            assert(step_fails(trees.last(), hs[done as int]));
                            assert(build_trace(trees, hs, done as int));
                            assert(exists|t: Seq<Inode>, k: int|
                                0 <= k < hs.len() && #[trigger] build_trace(t, hs, k) && step_fails(t.last(), hs[k]));
                        }
                        return Err(e);
                    },
                }
                proof {
                    assert(node_made(hv, id, nv));
                    assert(added_at(old_root, root, c.drop_last(), 0, c.last(), nv));
                    let t2 = trees.push(root);
                    assert(build_step(trees.last(), root, hs[done as int], header_id(hs, done as int)));
                    assert forall|k: int| 0 <= k < done + 1 implies #[trigger] build_step(
                        t2[k],
                        t2[k + 1],
                        hs[k],
                        header_id(hs, k),
                    ) by {
                        if k < done {
                            assert(t2[k] == trees[k] && t2[k + 1] == trees[k + 1]);
                        }
                    }
                    trees = t2;
                    assert(driver.headers() == driver_map(hs, done + 1));
                }
                kept = kept + 1;
            },
        }
        done = done + 1;
    }
    proof {
        assert(done == total);
    }
    let m = Inode::new_mountpoint(root, driver, 0);
    proof {
        assert(build_trace(trees, hs, hs.len() as int));
    }
    Ok(m)
}

} // verus!
