use eonix::errno::{EEXIST, EINVAL, EISDIR, ELOOP, ENODEV, ENOENT, ENOTDIR, ERANGE};
use eonix::vfs::cwd::getcwd;
use eonix::vfs::dcache::{
    d_add, d_exchange, d_find_fast, d_hinted, d_remove, d_save_found, d_try_revalidate, io_target,
    DentryCache, FileIo, IoTarget, O_CREAT, O_EXCL,
};
use eonix::vfs::dentry::{
    flags_for_mode, hash_of, Dentry, D_DIRECTORY, D_REGULAR, D_SYMLINK,
};
use eonix::vfs::event_file::EventFile;
use eonix::vfs::inode::{file_format, Inode, S_IFCHR, S_IFDIR, S_IFLNK, S_IFMT, S_IFREG};
use eonix::vfs::mount::{
    mount_flags, mount_opts, MountCreator, MountTable, MS_LAZYTIME, MS_NOATIME, MS_NODEV,
    MS_NOEXEC, MS_NOSUID, MS_RDONLY, MS_RELATIME, MS_STRICTATIME,
};
use eonix::vfs::path::{Path, PathComponent};
use eonix::vfs::{FsContext, FsContexts, DEFAULT_UMASK};
use std::cell::{Cell, RefCell};
use std::sync::Arc;

/// A file system in memory, enough to walk, create and link.
struct MemInode {
    ino: u64,
    mode: Cell<u32>,
    target: Vec<u8>,
    children: RefCell<Vec<(Vec<u8>, Arc<MemInode>)>>,
    content: RefCell<Vec<u8>>,
}

impl MemInode {
    fn make(ino: u64, mode: u32, target: &[u8]) -> Arc<MemInode> {
        Arc::new(MemInode {
            ino,
            mode: Cell::new(mode),
            target: target.to_vec(),
            children: RefCell::new(Vec::new()),
            content: RefCell::new(Vec::new()),
        })
    }

    fn next_ino(&self) -> u64 {
        self.ino * 100 + self.children.borrow().len() as u64 + 1
    }

    fn add(&self, name: &[u8], inode: Arc<MemInode>) -> Result<Arc<MemInode>, u32> {
        if self.children.borrow().iter().any(|(n, _)| n.as_slice() == name) {
            return Err(EEXIST);
        }
        self.children.borrow_mut().push((name.to_vec(), inode.clone()));
        Ok(inode)
    }
}

impl Inode for MemInode {
    fn mode(&self) -> u32 {
        self.mode.get()
    }

    fn lookup(&self, name: &[u8]) -> Result<Option<Arc<Self>>, u32> {
        Ok(self
            .children
            .borrow()
            .iter()
            .find(|(n, _)| n.as_slice() == name)
            .map(|(_, i)| i.clone()))
    }

    fn readlink(&self) -> Result<Vec<u8>, u32> {
        Ok(self.target.clone())
    }

    fn readdir(&self, offset: usize) -> Result<Vec<(Vec<u8>, u64)>, u32> {
        Ok(self
            .children
            .borrow()
            .iter()
            .skip(offset)
            .map(|(n, i)| (n.clone(), i.ino))
            .collect())
    }

    fn creat(&self, name: &[u8], mode: u32) -> Result<Arc<Self>, u32> {
        self.add(name, MemInode::make(self.next_ino(), S_IFREG | mode, b""))
    }

    fn mkdir(&self, name: &[u8], mode: u32) -> Result<Arc<Self>, u32> {
        self.add(name, MemInode::make(self.next_ino(), S_IFDIR | mode, b""))
    }

    fn unlink(&self, name: &[u8]) -> Result<(), u32> {
        let mut c = self.children.borrow_mut();
        match c.iter().position(|(n, _)| n.as_slice() == name) {
            Some(k) => {
                c.remove(k);
                Ok(())
            }
            None => Err(ENOENT),
        }
    }

    fn symlink(&self, name: &[u8], target: &[u8]) -> Result<Arc<Self>, u32> {
        self.add(name, MemInode::make(self.next_ino(), S_IFLNK | 0o777, target))
    }

    fn linkat(&self, name: &[u8], inode: &Arc<Self>) -> Result<(), u32> {
        self.add(name, inode.clone()).map(|_| ())
    }

    fn mknod(&self, name: &[u8], mode: u32, _dev: u32) -> Result<Arc<Self>, u32> {
        self.add(name, MemInode::make(self.next_ino(), mode, b""))
    }

    fn chmod(&self, mode: u32) -> Result<(), u32> {
        self.mode.set((self.mode.get() & S_IFMT) | (mode & 0o7777));
        Ok(())
    }

    fn chown(&self, _uid: u32, _gid: u32) -> Result<(), u32> {
        Ok(())
    }

    fn read(&self, offset: usize, len: usize) -> Result<Vec<u8>, u32> {
        let c = self.content.borrow();
        let start = offset.min(c.len());
        let end = offset.saturating_add(len).min(c.len());
        Ok(c[start..end].to_vec())
    }

    fn write(&self, data: &[u8], offset: usize, append: bool) -> Result<usize, u32> {
        let mut c = self.content.borrow_mut();
        let at = if append { c.len() } else { offset };
        if c.len() < at + data.len() {
            c.resize(at + data.len(), 0);
        }
        c[at..at + data.len()].copy_from_slice(data);
        Ok(data.len())
    }

    fn size(&self) -> usize {
        self.content.borrow().len()
    }

    fn truncate(&self, size: usize) -> Result<(), u32> {
        self.content.borrow_mut().resize(size, 0);
        Ok(())
    }

    fn devid(&self) -> Result<u32, u32> {
        Ok(self.ino as u32)
    }
}

struct MemFs;

impl MountCreator<MemInode> for MemFs {
    fn check_signature(&self, _first_block: &[u8]) -> Result<bool, u32> {
        Ok(true)
    }

    fn create_mount(&self, _source: &[u8], _flags: u64) -> Result<Arc<MemInode>, u32> {
        Ok(MemInode::make(1, S_IFDIR | 0o755, b""))
    }
}

struct Fs {
    cache: DentryCache<MemInode>,
    mounts: MountTable<MemFs>,
    ctx: FsContext,
}

fn boot() -> Fs {
    let mut cache = DentryCache::new();
    let mut mounts = MountTable::new();
    assert_eq!(mounts.register_filesystem(b"tmpfs", MemFs), Ok(()));
    let root = mounts.mount_root(&mut cache).unwrap();
    Fs { cache, mounts, ctx: FsContext::global(root) }
}

fn open(fs: &mut Fs, p: &[u8], follow: bool) -> Result<usize, u32> {
    let path = Path::new(p).unwrap();
    fs.cache.open(&fs.ctx, &path, follow)
}

#[test]
fn paths_split_into_components() {
    assert!(Path::new(b"").is_err());
    let p = Path::new(b"/a//b/").unwrap();
    assert!(p.absolute);
    assert_eq!(
        p.components,
        vec![
            PathComponent::Name(b"a".to_vec()),
            PathComponent::Name(b"b".to_vec()),
            PathComponent::TrailingEmpty
        ]
    );
    let q = Path::new(b"a/./../b").unwrap();
    assert!(!q.absolute);
    assert_eq!(
        q.components,
        vec![
            PathComponent::Name(b"a".to_vec()),
            PathComponent::Current,
            PathComponent::Parent,
            PathComponent::Name(b"b".to_vec())
        ]
    );
    let r = Path::new(b"/").unwrap();
    assert!(r.absolute);
    assert!(r.components.is_empty());
}

#[test]
fn empty_path_is_enoent() {
    match Path::new(b"") {
        Err(e) => assert_eq!(e, ENOENT),
        Ok(_) => panic!("the empty path parsed"),
    }
}

#[test]
fn entry_hash_is_fnv_of_parent_and_name() {
    assert_eq!(hash_of(0, b""), 0xaf63bd4c8601b7df);
    assert_eq!(hash_of(1, b"a"), 0x082f4307b4e8c4d7);
    assert_ne!(hash_of(1, b"a"), hash_of(2, b"a"));
}

#[test]
fn mode_formats_and_flags() {
    assert_eq!(file_format(0o100644), S_IFREG);
    assert_eq!(file_format(0o040755), S_IFDIR);
    assert_eq!(flags_for_mode(S_IFDIR | 0o755), D_DIRECTORY);
    assert_eq!(flags_for_mode(S_IFLNK | 0o777), D_SYMLINK);
    assert_eq!(flags_for_mode(S_IFREG | 0o644), D_REGULAR);
    assert_eq!(flags_for_mode(S_IFCHR | 0o600), D_REGULAR);
}

#[test]
fn mount_flag_normalization() {
    assert_eq!(mount_flags(0), MS_RELATIME);
    assert_eq!(mount_flags(MS_NOATIME), MS_NOATIME);
    assert_eq!(mount_flags(MS_STRICTATIME), MS_STRICTATIME);
    assert_eq!(mount_flags(MS_RDONLY), MS_RDONLY | MS_RELATIME);
}

#[test]
fn mount_options_text() {
    assert_eq!(mount_opts(0), b"rw".to_vec());
    assert_eq!(mount_opts(MS_RDONLY | MS_NOSUID | MS_NODEV | MS_NOEXEC), b"ro,nosuid,nodev,noexec".to_vec());
    assert_eq!(mount_opts(MS_RELATIME | MS_LAZYTIME), b"rw,relatime,lazytime".to_vec());
    assert_eq!(mount_opts(MS_NOATIME), b"rw,noatime".to_vec());
}

#[test]
fn filesystem_types_register_once() {
    let mut t: MountTable<MemFs> = MountTable::new();
    assert_eq!(t.register_filesystem(b"tmpfs", MemFs), Ok(()));
    assert_eq!(t.register_filesystem(b"tmpfs", MemFs), Err(EEXIST));
    assert_eq!(t.register_filesystem(b"fat32", MemFs), Ok(()));
    assert!(t.dump_mounts().is_empty());
}

#[test]
fn root_mount_is_listed() {
    let fs = boot();
    assert_eq!(fs.ctx.fsroot, 1);
    assert_eq!(fs.ctx.cwd, 1);
    assert_eq!(fs.ctx.umask, DEFAULT_UMASK);
    assert_eq!(fs.cache.len(), 2);
    assert!(fs.cache.get(1).is_directory());
    assert_eq!(fs.mounts.dump_mounts(), b"(rootfs) / tmpfs rw,noatime 0 0\n".to_vec());
}

#[test]
fn mkdir_then_open_finds_the_same_entry() {
    let mut fs = boot();
    let etc = open(&mut fs, b"/etc", true).unwrap();
    assert!(!fs.cache.get(etc).is_valid());
    assert_eq!(fs.cache.get(etc).get_name(), b"etc");
    assert_eq!(fs.cache.get(etc).parent_addr(), 1);
    assert_eq!(fs.cache.mkdir(etc, 0o755), Ok(()));
    assert!(fs.cache.get(etc).is_directory());
    assert_eq!(fs.cache.mkdir(etc, 0o755), Err(EEXIST));
    assert_eq!(open(&mut fs, b"/etc", true), Ok(etc));
    assert_eq!(open(&mut fs, b"etc/", true), Ok(etc));
    assert_eq!(open(&mut fs, b"/etc/.", true), Ok(etc));
    assert_eq!(open(&mut fs, b"/etc/..", true), Ok(1));
    assert_eq!(open(&mut fs, b"/..", true), Ok(1));
    assert_eq!(open(&mut fs, b"/", true), Ok(1));
}

#[test]
fn create_with_open_flags() {
    let mut fs = boot();
    let etc = open(&mut fs, b"/etc", true).unwrap();
    fs.cache.mkdir(etc, 0o755).unwrap();
    let passwd = open(&mut fs, b"/etc/passwd", true).unwrap();
    assert_eq!(fs.cache.open_check(passwd, 0, 0o644), Err(ENOENT));
    assert_eq!(fs.cache.open_check(passwd, O_CREAT, 0o644), Ok(()));
    assert!(fs.cache.get(passwd).is_valid());
    assert_eq!(fs.cache.get(passwd).flags(), D_REGULAR);
    assert_eq!(fs.cache.open_check(passwd, O_CREAT, 0o644), Ok(()));
    assert_eq!(fs.cache.open_check(passwd, O_CREAT | O_EXCL, 0o644), Err(EEXIST));
    assert_eq!(fs.cache.open_check(passwd, 0, 0), Ok(()));
    assert_eq!(open(&mut fs, b"/etc/passwd/x", true), Err(ENOTDIR));
    assert_eq!(open(&mut fs, b"/nowhere/x", true), Err(ENOENT));
    let listing = fs.cache.readdir(etc, 0).unwrap();
    assert_eq!(listing.len(), 1);
    assert_eq!(listing[0].0, b"passwd".to_vec());
}

#[test]
fn symbolic_links_are_followed() {
    let mut fs = boot();
    let etc = open(&mut fs, b"/etc", true).unwrap();
    fs.cache.mkdir(etc, 0o755).unwrap();
    let hosts = open(&mut fs, b"/etc/hosts", true).unwrap();
    fs.cache.open_check(hosts, O_CREAT, 0o644).unwrap();
    let link = open(&mut fs, b"/conf", true).unwrap();
    assert_eq!(fs.cache.symlink(link, b"/etc"), Ok(()));
    assert_eq!(fs.cache.get(link).flags(), D_SYMLINK);
    assert_eq!(fs.cache.readlink(link), Ok(b"/etc".to_vec()));
    assert_eq!(open(&mut fs, b"/conf", false), Ok(link));
    assert_eq!(open(&mut fs, b"/conf", true), Ok(etc));
    assert_eq!(open(&mut fs, b"/conf/hosts", true), Ok(hosts));
    let rel = open(&mut fs, b"/etc/up", true).unwrap();
    fs.cache.symlink(rel, b"..").unwrap();
    assert_eq!(open(&mut fs, b"/etc/up/etc/hosts", true), Ok(hosts));
}

#[test]
fn a_link_to_itself_loops() {
    let mut fs = boot();
    let me = open(&mut fs, b"/me", true).unwrap();
    fs.cache.symlink(me, b"/me").unwrap();
    assert_eq!(open(&mut fs, b"/me", true), Err(ELOOP));
    assert_eq!(open(&mut fs, b"/me/x", true), Err(ELOOP));
}

#[test]
fn operations_on_missing_entries() {
    let mut fs = boot();
    let ghost = open(&mut fs, b"/ghost", true).unwrap();
    assert_eq!(fs.cache.unlink(ghost), Err(ENOENT));
    assert_eq!(fs.cache.readlink(ghost), Err(ENOENT));
    assert!(fs.cache.readdir(ghost, 0).is_err());
    assert_eq!(fs.cache.chmod(ghost, 0o600), Err(ENOENT));
    assert_eq!(fs.cache.chown(ghost, 0, 0), Err(ENOENT));
    assert!(fs.cache.get(ghost).get_inode().is_err());
}

#[test]
fn links_nodes_and_unlink() {
    let mut fs = boot();
    let a = open(&mut fs, b"/a", true).unwrap();
    fs.cache.open_check(a, O_CREAT, 0o644).unwrap();
    let inode = fs.cache.get(a).get_inode().unwrap();
    let b = open(&mut fs, b"/b", true).unwrap();
    assert_eq!(fs.cache.linkat(b, inode.clone()), Ok(()));
    assert!(Arc::ptr_eq(&fs.cache.get(b).get_inode().unwrap(), &inode));
    assert_eq!(fs.cache.linkat(b, inode), Err(EEXIST));
    let tty = open(&mut fs, b"/tty", true).unwrap();
    assert_eq!(fs.cache.mknod(tty, S_IFCHR | 0o600, 0x0401), Ok(()));
    assert_eq!(fs.cache.get(tty).flags(), D_REGULAR);
    assert_eq!(fs.cache.chmod(a, 0o600), Ok(()));
    assert_eq!(fs.cache.get(a).get_inode().unwrap().mode(), S_IFREG | 0o600);
    assert_eq!(fs.cache.chown(a, 1, 1), Ok(()));
    assert_eq!(fs.cache.unlink(a), Ok(()));
    assert_eq!(fs.cache.readdir(1, 0).unwrap().len(), 2);
}

#[test]
fn mounting_over_a_directory() {
    let mut fs = boot();
    let mnt = open(&mut fs, b"/mnt", true).unwrap();
    fs.cache.mkdir(mnt, 0o755).unwrap();
    let f = open(&mut fs, b"/file", true).unwrap();
    fs.cache.open_check(f, O_CREAT, 0o644).unwrap();
    assert_eq!(fs.mounts.do_mount(&mut fs.cache, f, b"none", b"/file", b"tmpfs", 0), Err(ENOTDIR));
    assert_eq!(fs.mounts.do_mount(&mut fs.cache, mnt, b"none", b"/mnt", b"ext4", 0), Err(ENODEV));
    let before = fs.cache.len();
    assert_eq!(fs.mounts.do_mount(&mut fs.cache, mnt, b"none", b"/mnt", b"tmpfs", 0), Ok(()));
    assert_eq!(fs.cache.len(), before + 1);
    let root = open(&mut fs, b"/mnt", true).unwrap();
    assert_eq!(root, before);
    assert!(fs.cache.get(root).is_directory());
    assert_eq!(
        fs.mounts.dump_mounts(),
        b"(rootfs) / tmpfs rw,noatime 0 0\nnone /mnt tmpfs rw,relatime 0 0\n".to_vec()
    );
}

#[test]
fn a_linked_entry_is_found_until_removed() {
    let mut cache: DentryCache<MemInode> = DentryCache::new();
    let d: Dentry<MemInode> = Dentry::create(0, b"x");
    assert_eq!(d.hash(), hash_of(0, b"x"));
    assert_eq!(d_hinted(&d), (hash_of(0, b"x") % 256) as usize);
    let id = cache.insert(d);
    assert_eq!(id, 1);
    let probe: Dentry<MemInode> = Dentry::create(0, b"x");
    assert!(probe.hash_eq(cache.get(id)));
    assert_eq!(d_find_fast(&cache, &probe), None);
    assert!(!cache.is_hashed(id));
    d_add(&mut cache, id);
    assert!(cache.is_hashed(id));
    assert_eq!(d_find_fast(&cache, &probe), Some(id));
    let other: Dentry<MemInode> = Dentry::create(0, b"y");
    assert_eq!(d_find_fast(&cache, &other), None);
    d_remove(&mut cache, id);
    assert!(!cache.is_hashed(id));
    assert_eq!(d_find_fast(&cache, &probe), None);
}

#[test]
fn saving_an_inode_sets_the_flags() {
    let mut d: Dentry<MemInode> = Dentry::create(0, b"d");
    assert!(!d.is_valid());
    assert!(d.get_inode().is_err());
    assert_eq!(d.save_dir(MemInode::make(2, S_IFDIR | 0o755, b"")), Ok(()));
    assert!(d.is_valid());
    assert!(d.is_directory());
    assert_eq!(d.flags(), D_DIRECTORY);
    let mut cache: DentryCache<MemInode> = DentryCache::new();
    let id = cache.insert(Dentry::create(0, b"l"));
    assert_eq!(cache.d_save(id, MemInode::make(3, S_IFLNK | 0o777, b"/")), Ok(()));
    assert_eq!(cache.get(id).flags(), D_SYMLINK);
}

#[test]
fn contexts_clone_and_share() {
    let g = FsContext::global(7);
    let mut t = FsContexts::new(g);
    let c = t.new_cloned(0);
    assert_eq!(c, 1);
    assert_eq!(t.get(c), g);
    let s = t.new_shared(c);
    assert_eq!(s, c);
    let moved = FsContext { cwd: 9, ..g };
    t.update(s, moved);
    assert_eq!(t.get(c), moved);
    assert_eq!(t.get(s), moved);
    assert_eq!(t.get(0), g);
}

#[test]
fn event_file_starts_at_its_value() {
    let e = EventFile::new(3, true);
    assert_eq!(e.count, 3);
    assert!(e.non_block());
    assert!(!EventFile::new(0, false).non_block());
}

#[test]
fn paths_print_from_the_root() {
    let mut fs = boot();
    assert_eq!(fs.cache.get_path(&fs.ctx, 1), Ok(b"/\0".to_vec()));
    let etc = open(&mut fs, b"/etc", true).unwrap();
    fs.cache.mkdir(etc, 0o755).unwrap();
    let ssh = open(&mut fs, b"/etc/ssh", true).unwrap();
    fs.cache.mkdir(ssh, 0o755).unwrap();
    assert_eq!(fs.cache.get_path(&fs.ctx, etc), Ok(b"/etc/\0".to_vec()));
    assert_eq!(fs.cache.get_path(&fs.ctx, ssh), Ok(b"/etc/ssh/\0".to_vec()));
    let jailed = FsContext { fsroot: etc, cwd: etc, umask: DEFAULT_UMASK };
    assert_eq!(fs.cache.get_path(&jailed, ssh), Ok(b"/ssh/\0".to_vec()));
    assert_eq!(fs.cache.get_path(&jailed, 1), Err(ELOOP));
}

#[test]
fn chdir_and_getcwd() {
    let mut fs = boot();
    let etc = open(&mut fs, b"/etc", true).unwrap();
    fs.cache.mkdir(etc, 0o755).unwrap();
    let passwd = open(&mut fs, b"/etc/passwd", true).unwrap();
    fs.cache.open_check(passwd, O_CREAT, 0o644).unwrap();
    assert_eq!(getcwd(&fs.cache, &fs.ctx, 100), Ok(b"/\0".to_vec()));
    let mut ctx = fs.ctx;
    assert_eq!(ctx.chdir(&mut fs.cache, &Path::new(b"/etc").unwrap()), Ok(()));
    assert_eq!(ctx.cwd, etc);
    assert_eq!(getcwd(&fs.cache, &ctx, 100), Ok(b"/etc/\0".to_vec()));
    assert_eq!(getcwd(&fs.cache, &ctx, 3), Err(ERANGE));
    assert_eq!(ctx.chdir(&mut fs.cache, &Path::new(b"passwd").unwrap()), Err(ENOTDIR));
    assert_eq!(ctx.chdir(&mut fs.cache, &Path::new(b"/nowhere").unwrap()), Err(ENOENT));
    assert_eq!(ctx.chdir(&mut fs.cache, &Path::new(b"/etc/passwd/x").unwrap()), Err(ENOTDIR));
    assert_eq!(ctx.cwd, etc);
    assert_eq!(ctx.fchdir(&fs.cache, passwd), Err(ENOTDIR));
    assert_eq!(ctx.chdir(&mut fs.cache, &Path::new(b"..").unwrap()), Ok(()));
    assert_eq!(ctx.cwd, 1);
    assert_eq!(ctx.fchdir(&fs.cache, etc), Ok(()));
    assert_eq!(ctx.cwd, etc);
}

#[test]
fn exchanged_entries_swap_names() {
    let mut fs = boot();
    let a = open(&mut fs, b"/a", true).unwrap();
    fs.cache.open_check(a, O_CREAT, 0o644).unwrap();
    let dir = open(&mut fs, b"/d", true).unwrap();
    fs.cache.mkdir(dir, 0o755).unwrap();
    let a_inode = fs.cache.get(a).get_inode().unwrap();
    d_exchange(&mut fs.cache, a, dir);
    assert_eq!(fs.cache.get(a).get_name(), b"d");
    assert_eq!(fs.cache.get(dir).get_name(), b"a");
    assert!(Arc::ptr_eq(&fs.cache.get(a).get_inode().unwrap(), &a_inode));
    assert_eq!(open(&mut fs, b"/d", false), Ok(a));
    assert_eq!(open(&mut fs, b"/a", false), Ok(dir));
    let before = fs.cache.len();
    d_exchange(&mut fs.cache, a, a);
    assert_eq!(fs.cache.len(), before);
    assert_eq!(fs.cache.get(a).get_name(), b"d");
}

#[test]
fn lookup_again_finds_the_same_entry() {
    let mut fs = boot();
    let etc = open(&mut fs, b"/etc", true).unwrap();
    fs.cache.mkdir(etc, 0o755).unwrap();
    let root = fs.ctx.fsroot;
    let found = fs.cache.find(root, b"etc").unwrap();
    assert_eq!(found, etc);
    let before = fs.cache.len();
    assert_eq!(fs.cache.find(root, b"etc"), Ok(etc));
    assert_eq!(open(&mut fs, b"/etc", false), Ok(etc));
    assert_eq!(fs.cache.len(), before);
}

#[test]
fn mounting_by_path() {
    let mut fs = boot();
    let mnt = open(&mut fs, b"/mnt", true).unwrap();
    fs.cache.mkdir(mnt, 0o755).unwrap();
    let ctx = fs.ctx;
    let before = fs.cache.len();
    let target = Path::new(b"/mnt").unwrap();
    assert_eq!(
        fs.mounts.mount_path(&mut fs.cache, &ctx, b"/dev/vda2", &target, b"/mnt", b"tmpfs", 0),
        Ok(())
    );
    assert_eq!(fs.cache.len(), before);
    assert_eq!(fs.mounts.dump_mounts(), b"(rootfs) / tmpfs rw,noatime 0 0\n".to_vec());
    let nowhere = Path::new(b"/nowhere").unwrap();
    assert_eq!(
        fs.mounts.mount_path(&mut fs.cache, &ctx, b"none", &nowhere, b"/nowhere", b"tmpfs", 0),
        Err(ENOENT)
    );
    assert_eq!(
        fs.mounts.mount_path(&mut fs.cache, &ctx, b"none", &target, b"/mnt", b"ext4", 0),
        Err(ENODEV)
    );
    let before = fs.cache.len();
    assert_eq!(
        fs.mounts.mount_path(&mut fs.cache, &ctx, b"none", &target, b"/mnt", b"tmpfs", MS_RDONLY),
        Ok(())
    );
    assert_eq!(fs.cache.len(), before + 1);
    assert_eq!(open(&mut fs, b"/mnt", true), Ok(before));
    assert_eq!(
        fs.mounts.dump_mounts(),
        b"(rootfs) / tmpfs rw,noatime 0 0\nnone /mnt tmpfs ro,relatime 0 0\n".to_vec()
    );
}

#[test]
fn installing_the_root_mount() {
    let mut cache: DentryCache<MemInode> = DentryCache::new();
    let mut mounts: MountTable<MemFs> = MountTable::new();
    let inode = MemInode::make(1, S_IFDIR | 0o755, b"");
    let before = cache.len();
    let root = mounts.install_root(&mut cache, inode.clone());
    assert_eq!(root, before);
    assert_eq!(cache.len(), before + 1);
    assert!(cache.get(root).is_directory());
    assert!(Arc::ptr_eq(&cache.get(root).get_inode().unwrap(), &inode));
    assert_eq!(mounts.dump_mounts(), b"(rootfs) / tmpfs rw,noatime 0 0\n".to_vec());
}

#[test]
fn revalidating_a_negative_entry() {
    let mut fs = boot();
    let x = open(&mut fs, b"/x", true).unwrap();
    assert!(!fs.cache.get(x).is_valid());
    d_try_revalidate(&mut fs.cache, x);
    assert!(!fs.cache.get(x).is_valid());
    d_save_found(&mut fs.cache, x, Ok(None));
    assert!(!fs.cache.get(x).is_valid());
    d_save_found(&mut fs.cache, x, Err(ENOENT));
    assert!(!fs.cache.get(x).is_valid());
    let root_inode = fs.cache.get(fs.ctx.fsroot).get_inode().unwrap();
    let file = MemInode::make(77, S_IFREG | 0o644, b"");
    root_inode.add(b"x", file.clone()).unwrap();
    d_try_revalidate(&mut fs.cache, x);
    assert!(fs.cache.get(x).is_valid());
    assert!(!fs.cache.get(x).is_directory());
    assert!(Arc::ptr_eq(&fs.cache.get(x).get_inode().unwrap(), &file));
    let y = open(&mut fs, b"/y", true).unwrap();
    let dir = MemInode::make(78, S_IFDIR | 0o755, b"");
    d_save_found(&mut fs.cache, y, Ok(Some(dir.clone())));
    assert!(fs.cache.get(y).is_directory());
}

#[test]
fn chdir_to_the_root() {
    let mut fs = boot();
    let etc = open(&mut fs, b"/etc", true).unwrap();
    fs.cache.mkdir(etc, 0o755).unwrap();
    let mut ctx = fs.ctx;
    assert_eq!(ctx.fchdir(&fs.cache, etc), Ok(()));
    let slash = Path::new(b"/").unwrap();
    assert!(slash.components.is_empty());
    assert_eq!(ctx.chdir(&mut fs.cache, &slash), Ok(()));
    assert_eq!(ctx.cwd, fs.ctx.fsroot);
}

#[test]
fn reads_and_writes_go_by_the_mode() {
    assert_eq!(io_target(S_IFDIR | 0o755, false), Err(EISDIR));
    assert_eq!(io_target(S_IFREG | 0o644, false), Ok(IoTarget::File));
    assert_eq!(io_target(S_IFREG | 0o644, true), Ok(IoTarget::File));
    assert_eq!(io_target(0o060000 | 0o600, false), Ok(IoTarget::BlockDevice));
    assert_eq!(io_target(0o060000 | 0o600, true), Err(EINVAL));
    assert_eq!(io_target(S_IFCHR | 0o600, true), Ok(IoTarget::CharDevice));
    assert_eq!(io_target(S_IFLNK | 0o777, false), Err(EINVAL));
    let mut fs = boot();
    let f = open(&mut fs, b"/f", true).unwrap();
    assert_eq!(fs.cache.io_target_of(f, false), Err(ENOENT));
    fs.cache.open_check(f, O_CREAT, 0o644).unwrap();
    assert_eq!(fs.cache.io_target_of(f, true), Ok(IoTarget::File));
    assert_eq!(fs.cache.io_target_of(fs.ctx.fsroot, false), Err(EISDIR));
}

#[test]
fn saving_by_mode() {
    let mut fs = boot();
    let a = open(&mut fs, b"/a", true).unwrap();
    let inode = MemInode::make(90, S_IFREG | 0o644, b"");
    assert_eq!(fs.cache.d_save_mode(a, inode, S_IFDIR | 0o755), Ok(()));
    assert!(fs.cache.get(a).is_directory());
    let b = open(&mut fs, b"/b", true).unwrap();
    let link = MemInode::make(91, S_IFLNK | 0o777, b"/a");
    assert_eq!(fs.cache.d_save(b, link), Ok(()));
    assert_eq!(fs.cache.get(b).flags(), D_SYMLINK);
}

#[test]
fn walks_through_dot_dot_and_the_root() {
    let mut fs = boot();
    let etc = open(&mut fs, b"/etc", true).unwrap();
    fs.cache.mkdir(etc, 0o755).unwrap();
    let ssh = open(&mut fs, b"/etc/ssh", true).unwrap();
    fs.cache.mkdir(ssh, 0o755).unwrap();
    let root = fs.ctx.fsroot;
    assert_eq!(open(&mut fs, b"/..", true), Ok(root));
    assert_eq!(open(&mut fs, b"/../../etc", true), Ok(etc));
    assert_eq!(open(&mut fs, b"/etc/ssh/..", true), Ok(etc));
    assert_eq!(open(&mut fs, b"/etc/./ssh/", true), Ok(ssh));
    let f = open(&mut fs, b"/etc/file", true).unwrap();
    fs.cache.open_check(f, O_CREAT, 0o644).unwrap();
    let before = fs.cache.len();
    assert_eq!(open(&mut fs, b"/etc/file/ssh", true), Err(ENOTDIR));
    assert_eq!(fs.cache.len(), before);
    let p = Path::new(b"/etc").unwrap();
    assert_eq!(fs.cache.open_recursive(&fs.ctx, root, &p, true, 16), Err(ELOOP));
    assert_eq!(fs.cache.len(), before);
}

#[test]
fn a_linked_entry_stays_found() {
    let mut fs = boot();
    let etc = open(&mut fs, b"/etc", true).unwrap();
    fs.cache.mkdir(etc, 0o755).unwrap();
    let probe: Dentry<MemInode> = Dentry::create(fs.ctx.fsroot, b"etc");
    assert_eq!(d_find_fast(&fs.cache, &probe), Some(etc));
    let x = open(&mut fs, b"/x", true).unwrap();
    fs.cache.open_check(x, O_CREAT, 0o644).unwrap();
    let y = open(&mut fs, b"/etc/y", true).unwrap();
    fs.cache.mkdir(y, 0o755).unwrap();
    let _ = open(&mut fs, b"/nowhere/z", true);
    assert_eq!(d_find_fast(&fs.cache, &probe), Some(etc));
    assert!(fs.cache.get(etc).is_directory());
}

#[test]
fn file_io_goes_by_the_mode() {
    let mut fs = boot();
    let f = open(&mut fs, b"/f", true).unwrap();
    assert_eq!(fs.cache.read(f, 0, 4), Err(ENOENT));
    assert_eq!(fs.cache.truncate(f, 0), Err(ENOENT));
    fs.cache.open_check(f, O_CREAT, 0o644).unwrap();
    assert_eq!(fs.cache.write(f, b"hello", 0, false), Ok(FileIo::Done(5)));
    assert_eq!(fs.cache.write(f, b"!", 0, true), Ok(FileIo::Done(1)));
    assert_eq!(fs.cache.read(f, 1, 3), Ok(FileIo::Done(b"ell".to_vec())));
    assert_eq!(fs.cache.size(f), 6);
    assert_eq!(fs.cache.truncate(f, 2), Ok(()));
    assert_eq!(fs.cache.size(f), 2);
    let root = fs.ctx.fsroot;
    assert_eq!(fs.cache.read(root, 0, 1), Err(EISDIR));
    assert_eq!(fs.cache.write(root, b"x", 0, false), Err(EISDIR));
    let dev = open(&mut fs, b"/tty", true).unwrap();
    fs.cache.mknod(dev, S_IFCHR | 0o600, 5).unwrap();
    assert!(matches!(fs.cache.read(dev, 0, 1), Ok(FileIo::Device { target: IoTarget::CharDevice, .. })));
}
