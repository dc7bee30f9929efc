//! The virtual file system: paths, the dentry cache, mounts and the
//! per-process file system context.
pub mod inode;
pub mod path;
pub mod dentry;
pub mod dcache;
pub mod event_file;
pub mod mount;
pub mod cwd;

use vstd::prelude::*;

verus! {

/// A process's view of the file system: the root it resolves absolute
/// paths from, its working directory (both dentry ids) and its umask.
#[derive(Clone, Copy, PartialEq, Eq, Structural, Debug)]
pub struct FsContext {
    pub fsroot: usize,
    pub cwd: usize,
    pub umask: u32,
}

/// The umask a system starts with.
pub const DEFAULT_UMASK: u32 = 0o022;

impl FsContext {
    /// The context the system starts with: root and working directory the
    /// root entry `root`, and the default umask.
    pub fn global(root: usize) -> (r: FsContext)
        ensures
            r == (FsContext { fsroot: root, cwd: root, umask: DEFAULT_UMASK }),
    {
        FsContext { fsroot: root, cwd: root, umask: DEFAULT_UMASK }
    }
}

/// The file system contexts of the processes, each behind a handle. A
/// process that shares its parent's context holds the parent's handle, so a
/// change made through one holder is seen by the other; a cloned context
/// has a handle of its own.
pub struct FsContexts {
    contexts: Vec<FsContext>,
}

impl FsContexts {
    /// The contexts, by handle.
    pub closed spec fn contexts(&self) -> Seq<FsContext> {
        self.contexts@
    }

    /// A table holding `global` as handle 0.
    pub fn new(global: FsContext) -> (r: FsContexts)
        ensures
            r.contexts() == seq![global],
    {
        let mut contexts: Vec<FsContext> = Vec::new();
        contexts.push(global);
        let r = FsContexts { contexts };
        assert(r.contexts() =~= seq![global]);
        r
    }

    /// The context behind handle `h`.
    pub fn get(&self, h: usize) -> (r: FsContext)
        requires
            h < self.contexts().len(),
        ensures
            r == self.contexts()[h as int],
    {
        self.contexts[h]
    }

    /// Make `c` the context behind handle `h`, for every holder of it.
    pub fn update(&mut self, h: usize, c: FsContext)
        requires
            h < old(self).contexts().len(),
        ensures
            final(self).contexts() == old(self).contexts().update(h as int, c),
    {
        self.contexts.set(h, c);
    }

    /// A context of its own with the values of the one behind `other`: its
    /// new handle.
    pub fn new_cloned(&mut self, other: usize) -> (r: usize)
        requires
            other < old(self).contexts().len(),
        ensures
            r == old(self).contexts().len(),
            final(self).contexts() == old(self).contexts().push(old(self).contexts()[other as int]),
    {
        let c = self.contexts[other];
        let r = self.contexts.len();
        self.contexts.push(c);
        r
    }

    /// The context behind `other`, shared: the same handle.
    pub fn new_shared(&self, other: usize) -> (r: usize)
        requires
            other < self.contexts().len(),
        ensures
            r == other,
            self.contexts()[r as int] == self.contexts()[other as int],
    {
        other
    }
}

/// A shared context is one context: after `new_shared` gave `s` for `h`,
/// an update through either handle is what both see, while a context
/// cloned before, at handle `k`, keeps its values.
pub proof fn law_shared_context_is_one(t0: FsContexts, t1: FsContexts, h: usize, s: usize, k: usize, c: FsContext)
    requires
        h < t0.contexts().len(),
        k < t0.contexts().len(),
        k != h,
        s == h,
        t1.contexts() == t0.contexts().update(s as int, c),
    ensures
        t1.contexts()[h as int] == c,
        t1.contexts()[s as int] == c,
        t1.contexts()[k as int] == t0.contexts()[k as int],
{
}

} // verus!
