//! Memory system calls: `mmap`, `munmap`, `mprotect`, `mremap`, `shmget`
//! and `shmat`.
use crate::errno::{EEXIST, EINVAL, ENOENT, ENOMEM};
use crate::mem::align::{page_align_down, page_align_up, spec_align_up, PAGE_SIZE};
use crate::mem::mapping::Permission;
use std::collections::BTreeMap;
use vstd::prelude::*;

verus! {

broadcast use vstd::std_specs::btree::group_btree_axioms;

pub const PROT_READ: u32 = 1;
pub const PROT_WRITE: u32 = 2;
pub const PROT_EXEC: u32 = 4;

pub const MAP_SHARED: u32 = 0x01;
pub const MAP_PRIVATE: u32 = 0x02;
pub const MAP_FIXED: u32 = 0x10;
pub const MAP_ANONYMOUS: u32 = 0x20;

pub const MREMAP_MAYMOVE: usize = 1;
pub const MREMAP_FIXED: usize = 2;
pub const MREMAP_DONTUNMAP: usize = 4;

pub const IPC_PRIVATE: usize = 0;
pub const IPC_CREAT: u32 = 0o1000;
pub const IPC_EXCL: u32 = 0o2000;
pub const SHM_RDONLY: u32 = 0o10000;
pub const SHM_RND: u32 = 0o20000;
pub const SHM_EXEC: u32 = 0o100000;

/// The permission that protection bits `prot` grant.
pub open spec fn spec_permission(prot: u32) -> Permission {
    Permission {
        read: prot & PROT_READ != 0,
        write: prot & PROT_WRITE != 0,
        execute: prot & PROT_EXEC != 0,
    }
}

/// The permission that protection bits `prot` grant.
pub fn permission_of_prot(prot: u32) -> (r: Permission)
    ensures
        r == spec_permission(prot),
{
    Permission {
        read: prot & PROT_READ != 0,
        write: prot & PROT_WRITE != 0,
        execute: prot & PROT_EXEC != 0,
    }
}

/// Each permission follows its own protection bit and no other: the
/// permission for `prot` reads, writes and executes exactly as the
/// permissions for `prot`'s read, write and execute bits alone do, and
/// each bit alone grants its own permission only.
pub proof fn law_permission_bits_independent(prot: u32)
    ensures
        spec_permission(prot) == (Permission {
            read: spec_permission(prot & PROT_READ).read,
            write: spec_permission(prot & PROT_WRITE).write,
            execute: spec_permission(prot & PROT_EXEC).execute,
        }),
        spec_permission(0) == (Permission { read: false, write: false, execute: false }),
        spec_permission(PROT_READ) == (Permission { read: true, write: false, execute: false }),
        spec_permission(PROT_WRITE) == (Permission { read: false, write: true, execute: false }),
        spec_permission(PROT_EXEC) == (Permission { read: false, write: false, execute: true }),
        prot & PROT_EXEC != 0 ==> spec_permission(prot).execute,
        prot & PROT_WRITE != 0 ==> spec_permission(prot).write,
        prot & PROT_READ != 0 ==> spec_permission(prot).read,
{
    assert((prot & 1) & 1 == prot & 1 && (prot & 2) & 2 == prot & 2 && (prot & 4) & 4 == prot & 4) by (bit_vector);
    assert(0u32 & 1 == 0 && 0u32 & 2 == 0 && 0u32 & 4 == 0) by (bit_vector);
    assert(1u32 & 1 != 0 && 1u32 & 2 == 0 && 1u32 & 4 == 0) by (bit_vector);
    assert(2u32 & 1 == 0 && 2u32 & 2 != 0 && 2u32 & 4 == 0) by (bit_vector);
    assert(4u32 & 1 == 0 && 4u32 & 2 == 0 && 4u32 & 4 != 0) by (bit_vector);
}

/// What backs a new mapping.
#[derive(Clone, Copy, PartialEq, Eq, Structural, Debug)]
pub enum MmapSource {
    /// Private anonymous memory.
    Anonymous,
    /// A new shared memory area of `len` bytes.
    SharedAnonymous { len: usize },
    /// `len` bytes of the file open as `fd`, from `offset`.
    File { fd: u32, offset: usize, len: usize },
}

/// The work an `mmap` call asks for.
#[derive(Clone, Copy, PartialEq, Eq, Structural, Debug)]
pub struct MmapPlan {
    pub addr: usize,
    /// The length rounded up to whole pages.
    pub len: usize,
    pub source: MmapSource,
    pub permission: Permission,
    pub is_shared: bool,
    /// Map exactly at `addr`, unmapping what is there first.
    pub fixed: bool,
}

/// When `mmap` refuses its arguments.
pub open spec fn mmap_refused(addr: usize, len: usize, flags: u32, pgoffset: usize) -> bool {
    addr % PAGE_SIZE != 0 || pgoffset % PAGE_SIZE != 0 || len == 0 || (flags & MAP_ANONYMOUS
        != 0 && pgoffset != 0)
}

/// Check the arguments of `mmap` and say what it must do. `EINVAL` for an
/// unaligned address or offset, a zero length, or an anonymous mapping with
/// an offset.
pub fn mmap_plan(addr: usize, len: usize, prot: u32, flags: u32, fd: u32, pgoffset: usize) -> (r:
    Result<MmapPlan, u32>)
    requires
        !mmap_refused(addr, len, flags, pgoffset) ==> len <= usize::MAX - PAGE_SIZE,
    ensures
        r is Err <==> mmap_refused(addr, len, flags, pgoffset),
        r matches Err(e) ==> e == EINVAL,
        r matches Ok(p) ==> {
            &&& p.addr == addr
            &&& p.len == spec_align_up(len as int, PAGE_SIZE as int)
            &&& p.permission == spec_permission(prot)
            &&& p.is_shared == (flags & MAP_SHARED != 0)
            &&& p.fixed == (flags & MAP_FIXED != 0)
            &&& p.source == if flags & MAP_ANONYMOUS != 0 {
                if flags & MAP_SHARED != 0 {
                    MmapSource::SharedAnonymous { len: p.len }
                } else {
                    MmapSource::Anonymous
                }
            } else {
                MmapSource::File { fd, offset: pgoffset, len: p.len }
            }
        },
{
    if addr % PAGE_SIZE != 0 || pgoffset % PAGE_SIZE != 0 || len == 0 {
        return Err(EINVAL);
    }
    if flags & MAP_ANONYMOUS != 0 && pgoffset != 0 {
        return Err(EINVAL);
    }
    let len = page_align_up(len);
    let is_shared = flags & MAP_SHARED != 0;
    let source = if flags & MAP_ANONYMOUS != 0 {
        if !is_shared {
            MmapSource::Anonymous
        } else {
            MmapSource::SharedAnonymous { len }
        }
    } else {
        MmapSource::File { fd, offset: pgoffset, len }
    };
    Ok(
        MmapPlan {
            addr,
            len,
            source,
            permission: permission_of_prot(prot),
            is_shared,
            fixed: flags & MAP_FIXED != 0,
        },
    )
}

/// Check the arguments of `munmap`: the page-rounded length, or `EINVAL`
/// for an unaligned address or a zero length.
pub fn munmap_len(addr: usize, len: usize) -> (r: Result<usize, u32>)
    requires
        addr % PAGE_SIZE == 0 && len != 0 ==> len <= usize::MAX - PAGE_SIZE,
    ensures
        r is Err <==> addr % PAGE_SIZE != 0 || len == 0,
        r matches Err(e) ==> e == EINVAL,
        r matches Ok(l) ==> l == spec_align_up(len as int, PAGE_SIZE as int),
{
    if addr % PAGE_SIZE != 0 || len == 0 {
        return Err(EINVAL);
    }
    Ok(page_align_up(len))
}

/// Check the arguments of `mprotect`: the page-rounded length and the new
/// permission, or `EINVAL` for an unaligned address or a zero length.
pub fn mprotect_plan(addr: usize, len: usize, prot: u32) -> (r: Result<(usize, Permission), u32>)
    requires
        addr % PAGE_SIZE == 0 && len != 0 ==> len <= usize::MAX - PAGE_SIZE,
    ensures
        r is Err <==> addr % PAGE_SIZE != 0 || len == 0,
        r matches Err(e) ==> e == EINVAL,
        r matches Ok(p) ==> p.0 == spec_align_up(len as int, PAGE_SIZE as int) && p.1
            == spec_permission(prot),
{
    let len = munmap_len(addr, len)?;
    Ok((len, permission_of_prot(prot)))
}

/// What `shmget` does once it knows whether the segment exists.
#[derive(Clone, Copy, PartialEq, Eq, Structural, Debug)]
pub enum ShmGet {
    /// Create a new segment with this id.
    Create,
    /// Return the id of the existing segment.
    Existing,
}

/// The decision of `shmget` for `key` and `shmflg`, given whether a
/// segment with the key's id exists. A private key always creates; an
/// existing segment is returned unless both `IPC_CREAT` and `IPC_EXCL`
/// are given (`EEXIST`); a missing one is created with `IPC_CREAT`, else
/// `ENOENT`.
pub fn shmget_decide(key: usize, shmflg: u32, exists: bool) -> (r: Result<ShmGet, u32>)
    ensures
        key == IPC_PRIVATE ==> r == Ok::<ShmGet, u32>(ShmGet::Create),
        key != IPC_PRIVATE && exists ==> r == if shmflg & IPC_CREAT != 0 && shmflg & IPC_EXCL
            != 0 {
            Err::<ShmGet, u32>(EEXIST)
        } else {
            Ok(ShmGet::Existing)
        },
        key != IPC_PRIVATE && !exists ==> r == if shmflg & IPC_CREAT != 0 {
            Ok::<ShmGet, u32>(ShmGet::Create)
        } else {
            Err(ENOENT)
        },
{
    if key == IPC_PRIVATE {
        return Ok(ShmGet::Create);
    }
    if exists {
        if shmflg & IPC_CREAT != 0 && shmflg & IPC_EXCL != 0 {
            return Err(EEXIST);
        }
        return Ok(ShmGet::Existing);
    }
    if shmflg & IPC_CREAT != 0 {
        return Ok(ShmGet::Create);
    }
    Err(ENOENT)
}

/// Where and how `shmat` maps a segment.
#[derive(Clone, Copy, PartialEq, Eq, Structural, Debug)]
pub struct ShmatPlan {
    /// `None`: anywhere; `Some(a)`: exactly at the page-aligned `a`.
    pub addr: Option<usize>,
    pub permission: Permission,
}

/// The plan of `shmat`: read-write unless `SHM_RDONLY`, executable with
/// `SHM_EXEC`; a non-zero address must be page aligned unless `SHM_RND`
/// asks to round it down (`EINVAL` otherwise).
pub fn shmat_plan(addr: usize, shmflg: u32) -> (r: Result<ShmatPlan, u32>)
    ensures
        r is Err <==> addr != 0 && addr % PAGE_SIZE != 0 && shmflg & SHM_RND == 0,
        r matches Err(e) ==> e == EINVAL,
        r matches Ok(p) ==> {
            &&& p.permission == (Permission {
                read: true,
                write: shmflg & SHM_RDONLY == 0,
                execute: shmflg & SHM_EXEC != 0,
            })
            &&& p.addr == if addr == 0 {
                None
            } else {
                Some((addr - addr % PAGE_SIZE) as usize)
            }
        },
{
    let mut permission = Permission::read_write();
    if shmflg & SHM_EXEC != 0 {
        permission.execute = true;
    }
    if shmflg & SHM_RDONLY != 0 {
        permission.write = false;
    }
    if addr != 0 {
        if addr % PAGE_SIZE != 0 && shmflg & SHM_RND == 0 {
            return Err(EINVAL);
        }
        Ok(ShmatPlan { addr: Some(page_align_down(addr)), permission })
    } else {
        Ok(ShmatPlan { addr: None, permission })
    }
}

/// When `mremap` refuses its arguments.
pub open spec fn mremap_refused(
    old_addr: usize,
    old_size: usize,
    new_size: usize,
    flags: usize,
    new_addr: usize,
) -> bool {
    ||| old_addr % PAGE_SIZE != 0
    ||| old_size == 0
    ||| new_size == 0
    ||| flags & !(MREMAP_MAYMOVE | MREMAP_FIXED | MREMAP_DONTUNMAP) != 0
    ||| flags & MREMAP_DONTUNMAP != 0
    ||| (flags & MREMAP_FIXED != 0 && (flags & MREMAP_MAYMOVE == 0 || new_addr % PAGE_SIZE != 0))
}

/// Where an `mremap` call stands.
#[derive(Clone, Copy, PartialEq, Eq, Structural, Debug)]
pub enum MremapState {
    /// Checking that the first byte of the old area is mapped.
    ProbeFirst,
    /// Checking that the last byte of the old area is mapped.
    ProbeLast,
    /// Unmapping the tail of a shrinking area.
    Shrinking,
    /// Trying to map the growth right after the area.
    Growing,
    /// Unmapping whatever lies at the fixed target.
    UnmappingTarget,
    /// Mapping the new area.
    MappingTarget,
    /// Copying page `copied / PAGE_SIZE` to the new area at `target`.
    Copying { target: usize, copied: usize },
    /// Unmapping the old area after a move to `target`.
    UnmappingOld { target: usize },
    /// The call has returned.
    Finished,
}

/// The outside work an `mremap` call asks for next.
#[derive(Clone, Copy, PartialEq, Eq, Debug)]
pub enum MremapAction {
    /// Read one byte at `addr`.
    Probe { addr: usize },
    /// Unmap `len` bytes at `addr`.
    Unmap { addr: usize, len: usize },
    /// Map `len` bytes of private read-write anonymous memory exactly at `addr`.
    MapFixed { addr: usize, len: usize },
    /// Map `len` bytes of private read-write anonymous memory anywhere.
    MapAnywhere { len: usize },
    /// Copy `len` bytes from `from` to `to`.
    Copy { from: usize, to: usize, len: usize },
    /// Return from the call.
    Finish(Result<usize, u32>),
}

/// An `mremap` call in progress. The sizes are rounded up to whole pages.
#[derive(Clone, Copy, PartialEq, Eq, Structural, Debug)]
pub struct Mremap {
    pub old_addr: usize,
    pub old_size: usize,
    pub new_size: usize,
    pub flags: usize,
    pub new_addr: usize,
    pub state: MremapState,
}

impl Mremap {
    pub open spec fn wf(self) -> bool {
        &&& self.old_addr % PAGE_SIZE == 0
        &&& self.old_size % PAGE_SIZE == 0
        &&& self.new_size % PAGE_SIZE == 0
        &&& self.old_size > 0
        &&& self.new_size > 0
        &&& self.old_addr + self.old_size <= usize::MAX
        &&& (self.state is Growing || self.state is UnmappingTarget || self.state is MappingTarget)
            ==> self.old_size < self.new_size
        &&& self.state matches MremapState::Copying { target, copied } ==> {
            &&& copied < self.old_size
            &&& copied % PAGE_SIZE == 0
            &&& self.old_size < self.new_size
            &&& target + self.new_size <= usize::MAX
        }
    }

    /// What the outcome `ev` of the last action must satisfy: a mapped
    /// target leaves room for the whole new area.
    pub open spec fn event_fits(self, ev: Result<usize, u32>) -> bool {
        self.state == MremapState::MappingTarget ==> (ev matches Ok(t) ==> t + self.new_size
            <= usize::MAX)
    }

    /// The state and action that follow outcome `ev` of the last action.
    pub open spec fn transition(self, ev: Result<usize, u32>) -> (MremapState, MremapAction) {
        match self.state {
            MremapState::ProbeFirst => match ev {
                Err(_) => (MremapState::Finished, MremapAction::Finish(Err(ENOMEM))),
                Ok(_) => (
                    MremapState::ProbeLast,
                    MremapAction::Probe { addr: (self.old_addr + self.old_size - 1) as usize },
                ),
            },
            MremapState::ProbeLast => match ev {
                Err(_) => (MremapState::Finished, MremapAction::Finish(Err(ENOMEM))),
                Ok(_) => if self.new_size == self.old_size {
                    (MremapState::Finished, MremapAction::Finish(Ok(self.old_addr)))
                } else if self.new_size < self.old_size {
                    (
                        MremapState::Shrinking,
                        MremapAction::Unmap {
                            addr: (self.old_addr + self.new_size) as usize,
                            len: (self.old_size - self.new_size) as usize,
                        },
                    )
                } else if self.flags & MREMAP_FIXED == 0 {
                    (
                        MremapState::Growing,
                        MremapAction::MapFixed {
                            addr: (self.old_addr + self.old_size) as usize,
                            len: (self.new_size - self.old_size) as usize,
                        },
                    )
                } else {
                    (
                        MremapState::UnmappingTarget,
                        MremapAction::Unmap { addr: self.new_addr, len: self.new_size },
                    )
                },
            },
            MremapState::Shrinking => match ev {
                Err(e) => (MremapState::Finished, MremapAction::Finish(Err(e))),
                Ok(_) => (MremapState::Finished, MremapAction::Finish(Ok(self.old_addr))),
            },
            MremapState::Growing => match ev {
                Ok(_) => (MremapState::Finished, MremapAction::Finish(Ok(self.old_addr))),
                Err(_) => if self.flags & MREMAP_MAYMOVE == 0 {
                    (MremapState::Finished, MremapAction::Finish(Err(ENOMEM)))
                } else {
                    (MremapState::MappingTarget, MremapAction::MapAnywhere { len: self.new_size })
                },
            },
            MremapState::UnmappingTarget => (
                MremapState::MappingTarget,
                MremapAction::MapFixed { addr: self.new_addr, len: self.new_size },
            ),
            MremapState::MappingTarget => match ev {
                Err(e) => (MremapState::Finished, MremapAction::Finish(Err(e))),
                Ok(t) => (
                    MremapState::Copying { target: t, copied: 0 },
                    MremapAction::Copy { from: self.old_addr, to: t, len: PAGE_SIZE },
                ),
            },
            MremapState::Copying { target, copied } => match ev {
                Err(e) => (MremapState::Finished, MremapAction::Finish(Err(e))),
                Ok(_) => if copied + PAGE_SIZE < self.old_size {
                    (
                        MremapState::Copying { target, copied: (copied + PAGE_SIZE) as usize },
                        MremapAction::Copy {
                            from: (self.old_addr + copied + PAGE_SIZE) as usize,
                            to: (target + copied + PAGE_SIZE) as usize,
                            len: PAGE_SIZE,
                        },
                    )
                } else {
                    (
                        MremapState::UnmappingOld { target },
                        MremapAction::Unmap { addr: self.old_addr, len: self.old_size },
                    )
                },
            },
            MremapState::UnmappingOld { target } => match ev {
                Err(e) => (MremapState::Finished, MremapAction::Finish(Err(e))),
                Ok(_) => (MremapState::Finished, MremapAction::Finish(Ok(target))),
            },
            MremapState::Finished => (MremapState::Finished, MremapAction::Finish(Err(EINVAL))),
        }
    }

    /// Steps left before the call returns, at most.
    pub open spec fn measure(self) -> nat {
        let n = (self.old_size / PAGE_SIZE) as nat;
        match self.state {
            MremapState::ProbeFirst => n + 8,
            MremapState::ProbeLast => n + 7,
            MremapState::Growing => n + 6,
            MremapState::UnmappingTarget => n + 5,
            MremapState::MappingTarget => n + 4,
            MremapState::Copying { target, copied } => ((self.old_size - copied) / PAGE_SIZE as int)
                as nat + 2,
            MremapState::UnmappingOld { .. } => 1,
            MremapState::Shrinking => 1,
            MremapState::Finished => 0,
        }
    }

    /// Start an `mremap` of `old_size` bytes at `old_addr` to `new_size`
    /// bytes. The arguments are refused with `EINVAL` as `mremap_refused`
    /// says; otherwise the first action probes the first old byte.
    pub fn start(old_addr: usize, old_size: usize, new_size: usize, flags: usize, new_addr: usize) -> (r:
        Result<(Mremap, MremapAction), u32>)
        requires
            !mremap_refused(old_addr, old_size, new_size, flags, new_addr) ==> {
                &&& old_size <= usize::MAX - PAGE_SIZE
                &&& new_size <= usize::MAX - PAGE_SIZE
                &&& old_addr + spec_align_up(old_size as int, PAGE_SIZE as int) <= usize::MAX
            },
        ensures
            r is Err <==> mremap_refused(old_addr, old_size, new_size, flags, new_addr),
            r matches Err(e) ==> e == EINVAL,
            r matches Ok(p) ==> {
                &&& p.0.wf()
                &&& p.0 == (Mremap {
                    old_addr,
                    old_size: spec_align_up(old_size as int, PAGE_SIZE as int) as usize,
                    new_size: spec_align_up(new_size as int, PAGE_SIZE as int) as usize,
                    flags,
                    new_addr,
                    state: MremapState::ProbeFirst,
                })
                &&& p.1 == MremapAction::Probe { addr: old_addr }
            },
    {
        if old_addr % PAGE_SIZE != 0 || old_size == 0 || new_size == 0 {
            return Err(EINVAL);
        }
        if flags & !(MREMAP_MAYMOVE | MREMAP_FIXED | MREMAP_DONTUNMAP) != 0 {
            return Err(EINVAL);
        }
        if flags & MREMAP_DONTUNMAP != 0 {
            return Err(EINVAL);
        }
        if flags & MREMAP_FIXED != 0 && (flags & MREMAP_MAYMOVE == 0 || new_addr % PAGE_SIZE != 0) {
            return Err(EINVAL);
        }
        let old_size = page_align_up(old_size);
        let new_size = page_align_up(new_size);
        Ok(
            (
                Mremap {
                    old_addr,
                    old_size,
                    new_size,
                    flags,
                    new_addr,
                    state: MremapState::ProbeFirst,
                },
                MremapAction::Probe { addr: old_addr },
            ),
        )
    }

    /// Take in the outcome `ev` of the last action (`Ok` with the mapped
    /// address for a map, `Ok` with anything otherwise) and return the next.
    pub fn step(&mut self, ev: Result<usize, u32>) -> (r: MremapAction)
        requires
            old(self).wf(),
            old(self).state != MremapState::Finished,
            old(self).event_fits(ev),
        ensures
            final(self).wf(),
            (final(self).state, r) == old(self).transition(ev),
            final(self).old_addr == old(self).old_addr,
            final(self).old_size == old(self).old_size,
            final(self).new_size == old(self).new_size,
            final(self).flags == old(self).flags,
            final(self).new_addr == old(self).new_addr,
    {
        let (state, action) = match self.state {
            MremapState::ProbeFirst => match ev {
                Err(_) => (MremapState::Finished, MremapAction::Finish(Err(ENOMEM))),
                Ok(_) => (
                    MremapState::ProbeLast,
                    MremapAction::Probe { addr: self.old_addr + self.old_size - 1 },
                ),
            },
            MremapState::ProbeLast => match ev {
                Err(_) => (MremapState::Finished, MremapAction::Finish(Err(ENOMEM))),
                Ok(_) => {
                    if self.new_size == self.old_size {
                        (MremapState::Finished, MremapAction::Finish(Ok(self.old_addr)))
                    } else if self.new_size < self.old_size {
                        (
                            MremapState::Shrinking,
                            MremapAction::Unmap {
                                addr: self.old_addr + self.new_size,
                                len: self.old_size - self.new_size,
                            },
                        )
                    } else if self.flags & MREMAP_FIXED == 0 {
                        (
                            MremapState::Growing,
                            MremapAction::MapFixed {
                                addr: self.old_addr + self.old_size,
                                len: self.new_size - self.old_size,
                            },
                        )
                    } else {
                        (
                            MremapState::UnmappingTarget,
                            MremapAction::Unmap { addr: self.new_addr, len: self.new_size },
                        )
                    }
                },
            },
            MremapState::Shrinking => match ev {
                Err(e) => (MremapState::Finished, MremapAction::Finish(Err(e))),
                Ok(_) => (MremapState::Finished, MremapAction::Finish(Ok(self.old_addr))),
            },
            MremapState::Growing => match ev {
                Ok(_) => (MremapState::Finished, MremapAction::Finish(Ok(self.old_addr))),
                Err(_) => {
                    if self.flags & MREMAP_MAYMOVE == 0 {
                        (MremapState::Finished, MremapAction::Finish(Err(ENOMEM)))
                    } else {
                        (MremapState::MappingTarget, MremapAction::MapAnywhere { len: self.new_size })
                    }
                },
            },
            MremapState::UnmappingTarget => (
                MremapState::MappingTarget,
                MremapAction::MapFixed { addr: self.new_addr, len: self.new_size },
            ),
            MremapState::MappingTarget => match ev {
                Err(e) => (MremapState::Finished, MremapAction::Finish(Err(e))),
                Ok(t) => {
                    let len = if self.old_size < PAGE_SIZE {
                        self.old_size
                    } else {
                        PAGE_SIZE
                    };
                    (
                        MremapState::Copying { target: t, copied: 0 },
                        MremapAction::Copy { from: self.old_addr, to: t, len },
                    )
                },
            },
            MremapState::Copying { target, copied } => match ev {
                Err(e) => (MremapState::Finished, MremapAction::Finish(Err(e))),
                Ok(_) => {
                    let copied = copied + PAGE_SIZE;
                    if copied < self.old_size {
                        let rest = self.old_size - copied;
                        let len = if rest < PAGE_SIZE {
                            rest
                        } else {
                            PAGE_SIZE
                        };
                        (
                            MremapState::Copying { target, copied },
                            MremapAction::Copy {
                                from: self.old_addr + copied,
                                to: target + copied,
                                len,
                            },
                        )
                    } else {
                        (
                            MremapState::UnmappingOld { target },
                            MremapAction::Unmap { addr: self.old_addr, len: self.old_size },
                        )
                    }
                },
            },
            MremapState::UnmappingOld { target } => match ev {
                Err(e) => (MremapState::Finished, MremapAction::Finish(Err(e))),
                Ok(_) => (MremapState::Finished, MremapAction::Finish(Ok(target))),
            },
            MremapState::Finished => (MremapState::Finished, MremapAction::Finish(Err(EINVAL))),
        };
        self.state = state;
        action
    }
}

/// Every step of an `mremap` call brings it closer to returning: the call
/// returns after at most `old_size / PAGE_SIZE + 8` steps.
pub proof fn lemma_mremap_progress(m: Mremap, ev: Result<usize, u32>)
    requires
        m.wf(),
        m.state != MremapState::Finished,
    ensures
        (Mremap { state: m.transition(ev).0, ..m }).measure() < m.measure(),
{
    let n = m.old_size / PAGE_SIZE;
    if let MremapState::Copying { target, copied } = m.state {
        let rest = m.old_size - copied;
        assert(rest % PAGE_SIZE as int == 0);
        assert(rest >= PAGE_SIZE);
        assert((rest - PAGE_SIZE) / PAGE_SIZE as int == rest / PAGE_SIZE as int - 1) by {
            vstd::arithmetic::div_mod::lemma_div_minus_one(rest, PAGE_SIZE as int);
        }
    }
}

/// A successful move copies every page of the old area, in order, one page
/// per step: the copy that follows the one of page `copied` covers the next
/// page of both areas.
pub proof fn lemma_mremap_copies_in_order(m: Mremap, ev: Result<usize, u32>)
    requires
        m.wf(),
        m.state is Copying,
        ev is Ok,
    ensures
        ({
            let copied = m.state->Copying_copied;
            let target = m.state->Copying_target;
            if copied + PAGE_SIZE < m.old_size {
                m.transition(ev).1 == MremapAction::Copy {
                    from: (m.old_addr + copied + PAGE_SIZE) as usize,
                    to: (target + copied + PAGE_SIZE) as usize,
                    len: PAGE_SIZE,
                }
            } else {
                copied + PAGE_SIZE == m.old_size && m.transition(ev).1 == MremapAction::Unmap {
                    addr: m.old_addr,
                    len: m.old_size,
                }
            }
        }),
{
}

/// The actions an `mremap` call in `m` takes when its actions have the
/// outcomes `evs` in turn, up to the one that returns.
pub open spec fn mremap_run(m: Mremap, evs: Seq<Result<usize, u32>>) -> Seq<MremapAction>
    decreases evs.len(),
{
    if evs.len() == 0 || m.state is Finished {
        Seq::empty()
    } else {
        let (st, a) = m.transition(evs[0]);
        seq![a] + mremap_run(Mremap { state: st, ..m }, evs.drop_first())
    }
}

/// `n` outcomes that all succeed.
pub open spec fn all_ok(n: nat) -> Seq<Result<usize, u32>> {
    Seq::new(n, |i: int| Ok::<usize, u32>(0))
}

/// Shrinking only unmaps the tail: once both probes succeed, a smaller
/// area unmaps the bytes past its new size and returns its own address,
/// or the unmap's error.
pub proof fn law_mremap_shrink_unmaps_tail(m: Mremap, last: Result<usize, u32>)
    requires
        m.wf(),
        m.state == MremapState::ProbeFirst,
        m.new_size < m.old_size,
    ensures
        mremap_run(m, seq![Ok(0), Ok(0), last]) == seq![
            MremapAction::Probe { addr: (m.old_addr + m.old_size - 1) as usize },
            MremapAction::Unmap { addr: (m.old_addr + m.new_size) as usize, len: (m.old_size - m.new_size) as usize },
            MremapAction::Finish(match last {
                Ok(_) => Ok(m.old_addr),
                Err(e) => Err(e),
            }),
        ],
{
    let evs = seq![Ok::<usize, u32>(0), Ok(0), last];
    let m1 = Mremap { state: MremapState::ProbeLast, ..m };
    let m2 = Mremap { state: MremapState::Shrinking, ..m };
    let m3 = Mremap { state: MremapState::Finished, ..m };
    assert(evs.drop_first() =~= seq![Ok::<usize, u32>(0), last]);
    assert(evs.drop_first().drop_first() =~= seq![last]);
    assert(seq![last].drop_first() =~= Seq::<Result<usize, u32>>::empty());
    assert(mremap_run(m3, Seq::empty()) == Seq::<MremapAction>::empty());
    assert(mremap_run(m2, seq![last]) =~= seq![MremapAction::Finish(match last {
        Ok(_) => Ok(m.old_addr),
        Err(e) => Err(e),
    })]);
    assert(mremap_run(m1, seq![Ok::<usize, u32>(0), last]) =~= seq![
        MremapAction::Unmap { addr: (m.old_addr + m.new_size) as usize, len: (m.old_size - m.new_size) as usize },
        MremapAction::Finish(match last {
            Ok(_) => Ok(m.old_addr),
            Err(e) => Err(e),
        }),
    ]);
    assert(mremap_run(m, evs) =~= seq![
        MremapAction::Probe { addr: (m.old_addr + m.old_size - 1) as usize },
        MremapAction::Unmap { addr: (m.old_addr + m.new_size) as usize, len: (m.old_size - m.new_size) as usize },
        MremapAction::Finish(match last {
            Ok(_) => Ok(m.old_addr),
            Err(e) => Err(e),
        }),
    ]);
}

/// Growing in place: once both probes succeed, a larger area that is not
/// given a fixed target maps the growth right after itself and, when that
/// works, returns its own address without moving.
pub proof fn law_mremap_grows_in_place(m: Mremap, x: usize)
    requires
        m.wf(),
        m.state == MremapState::ProbeFirst,
        m.new_size > m.old_size,
        m.flags & MREMAP_FIXED == 0,
    ensures
        mremap_run(m, seq![Ok(0), Ok(0), Ok(x)]) == seq![
            MremapAction::Probe { addr: (m.old_addr + m.old_size - 1) as usize },
            MremapAction::MapFixed { addr: (m.old_addr + m.old_size) as usize, len: (m.new_size - m.old_size) as usize },
            MremapAction::Finish(Ok(m.old_addr)),
        ],
{
    let evs = seq![Ok::<usize, u32>(0), Ok(0), Ok(x)];
    let m1 = Mremap { state: MremapState::ProbeLast, ..m };
    let m2 = Mremap { state: MremapState::Growing, ..m };
    let m3 = Mremap { state: MremapState::Finished, ..m };
    assert(evs.drop_first() =~= seq![Ok::<usize, u32>(0), Ok(x)]);
    assert(seq![Ok::<usize, u32>(0), Ok(x)].drop_first() =~= seq![Ok::<usize, u32>(x)]);
    assert(seq![Ok::<usize, u32>(x)].drop_first() =~= Seq::<Result<usize, u32>>::empty());
    assert(mremap_run(m3, Seq::empty()) == Seq::<MremapAction>::empty());
    assert(mremap_run(m2, seq![Ok::<usize, u32>(x)]) =~= seq![MremapAction::Finish(Ok(m.old_addr))]);
    assert(mremap_run(m1, seq![Ok::<usize, u32>(0), Ok(x)]) =~= seq![
        MremapAction::MapFixed { addr: (m.old_addr + m.old_size) as usize, len: (m.new_size - m.old_size) as usize },
        MremapAction::Finish(Ok(m.old_addr)),
    ]);
    assert(mremap_run(m, evs) =~= seq![
        MremapAction::Probe { addr: (m.old_addr + m.old_size - 1) as usize },
        MremapAction::MapFixed { addr: (m.old_addr + m.old_size) as usize, len: (m.new_size - m.old_size) as usize },
        MremapAction::Finish(Ok(m.old_addr)),
    ]);
}

/// The copies of a move from page `copied` on: each later page of the old
/// area to the same place in the new one, then the old area is unmapped
/// and the new address returned.
pub open spec fn rest_of_move(m: Mremap, target: usize, copied: int) -> Seq<MremapAction> {
    let rem = (m.old_size - copied) / PAGE_SIZE as int;
    Seq::new(
        (rem - 1) as nat,
        |j: int|
            MremapAction::Copy {
                from: (m.old_addr + copied + (j + 1) * PAGE_SIZE) as usize,
                to: (target + copied + (j + 1) * PAGE_SIZE) as usize,
                len: PAGE_SIZE,
            },
    ) + seq![MremapAction::Unmap { addr: m.old_addr, len: m.old_size }, MremapAction::Finish(Ok(target))]
}

proof fn lemma_copying_run(m: Mremap)
    requires
        m.wf(),
        m.state is Copying,
    ensures
        ({
            let c = m.state->Copying_copied as int;
            let t = m.state->Copying_target;
            mremap_run(m, all_ok(((m.old_size - c) / PAGE_SIZE as int + 1) as nat)) == rest_of_move(m, t, c)
        }),
    decreases m.old_size - m.state->Copying_copied,
{
    let c = m.state->Copying_copied as int;
    let t = m.state->Copying_target;
    let rest = m.old_size - c;
    assert(rest % PAGE_SIZE as int == 0);
    assert(rest >= PAGE_SIZE);
    let rem = rest / PAGE_SIZE as int;
    assert(rem >= 1) by {
        vstd::arithmetic::div_mod::lemma_div_is_ordered(PAGE_SIZE as int, rest, PAGE_SIZE as int);
    }
    let evs = all_ok((rem + 1) as nat);
    assert(evs.drop_first() =~= all_ok(rem as nat));
    let (st, a) = m.transition(Ok(0));
    let m2 = Mremap { state: st, ..m };
    if c + PAGE_SIZE < m.old_size {
        assert((rest - PAGE_SIZE) / PAGE_SIZE as int == rem - 1) by {
            vstd::arithmetic::div_mod::lemma_div_minus_one(rest, PAGE_SIZE as int);
        }
        assert(m2.wf());
        lemma_copying_run(m2);
        assert(mremap_run(m, evs) == seq![a] + mremap_run(m2, all_ok(rem as nat)));
        assert(seq![a] + rest_of_move(m2, t, c + PAGE_SIZE) =~= rest_of_move(m, t, c));
    } else {
        assert(c + PAGE_SIZE == m.old_size);
        assert(rem == 1) by {
            assert(rest == PAGE_SIZE);
        }
        let m3 = Mremap { state: MremapState::Finished, ..m };
        assert(all_ok(1).drop_first() =~= Seq::<Result<usize, u32>>::empty());
        assert(mremap_run(m3, Seq::empty()) == Seq::<MremapAction>::empty());
        assert(mremap_run(m2, all_ok(1)) =~= seq![MremapAction::Finish(Ok(t))]);
        assert(mremap_run(m, evs) =~= rest_of_move(m, t, c));
    }
}

/// A move copies every page of the old area to the same place in the new
/// one, in order, and only then unmaps the old area and returns the new
/// address: once the new area is mapped at `t`, with every step
/// succeeding.
pub proof fn law_mremap_move_copies_every_page(m: Mremap, t: usize)
    requires
        m.wf(),
        m.state == MremapState::MappingTarget,
        t + m.new_size <= usize::MAX,
    ensures
        ({
            let n = m.old_size as int / PAGE_SIZE as int;
            mremap_run(m, seq![Ok(t)] + all_ok((n + 1) as nat)) == Seq::new(
                n as nat,
                |k: int|
                    MremapAction::Copy {
                        from: (m.old_addr + k * PAGE_SIZE) as usize,
                        to: (t + k * PAGE_SIZE) as usize,
                        len: PAGE_SIZE,
                    },
            ) + seq![MremapAction::Unmap { addr: m.old_addr, len: m.old_size }, MremapAction::Finish(Ok(t))]
        }),
{
    let n = m.old_size as int / PAGE_SIZE as int;
    let evs = seq![Ok::<usize, u32>(t)] + all_ok((n + 1) as nat);
    let m1 = Mremap { state: MremapState::Copying { target: t, copied: 0 }, ..m };
    assert(m1.wf());
    assert(evs[0] == Ok::<usize, u32>(t));
    assert(evs.drop_first() =~= all_ok((n + 1) as nat));
    lemma_copying_run(m1);
    assert(mremap_run(m, evs) == seq![MremapAction::Copy { from: m.old_addr, to: t, len: PAGE_SIZE }] + mremap_run(
        m1,
        all_ok((n + 1) as nat),
    ));
    assert(seq![MremapAction::Copy { from: m.old_addr, to: t, len: PAGE_SIZE }] + rest_of_move(m1, t, 0) =~= Seq::new(
        n as nat,
        |k: int|
            MremapAction::Copy {
                from: (m.old_addr + k * PAGE_SIZE) as usize,
                to: (t + k * PAGE_SIZE) as usize,
                len: PAGE_SIZE,
            },
    ) + seq![MremapAction::Unmap { addr: m.old_addr, len: m.old_size }, MremapAction::Finish(Ok(t))]);
}

/// The shared memory segments a process has attached: the size mapped at
/// each attach address.
pub struct ShmAreas {
    areas: BTreeMap<usize, usize>,
}

impl ShmAreas {
    /// Size by attach address.
    pub closed spec fn attached(&self) -> Map<usize, usize> {
        self.areas@
    }

    /// No segment attached.
    pub fn new() -> (r: ShmAreas)
        ensures
            r.attached() == Map::<usize, usize>::empty(),
    {
        ShmAreas { areas: BTreeMap::new() }
    }

    /// Record a segment of `size` bytes attached at `addr`.
    pub fn attach(&mut self, addr: usize, size: usize)
        ensures
            final(self).attached() == old(self).attached().insert(addr, size),
    {
        self.areas.insert(addr, size);
    }

    /// Forget the segment attached at `addr` (`shmdt`) and return its size
    /// to unmap; `EINVAL` when none is attached there.
    pub fn detach(&mut self, addr: usize) -> (r: Result<usize, u32>)
        ensures
            old(self).attached().contains_key(addr) ==> r == Ok::<usize, u32>(old(self).attached()[addr])
                && final(self).attached() == old(self).attached().remove(addr),
            !old(self).attached().contains_key(addr) ==> r == Err::<usize, u32>(EINVAL)
                && final(self).attached() == old(self).attached(),
    {
        match self.areas.remove(&addr) {
            Some(size) => Ok(size),
            None => Err(EINVAL),
        }
    }
}

/// Detaching gives back what attaching recorded: a segment attached at a
/// free address is detached with its size, and the table is as before.
pub proof fn law_detach_undoes_attach(before: Map<usize, usize>, addr: usize, size: usize)
    requires
        !before.contains_key(addr),
    ensures
        before.insert(addr, size).contains_key(addr),
        before.insert(addr, size)[addr] == size,
        before.insert(addr, size).remove(addr) == before,
{
    assert(before.insert(addr, size).remove(addr) =~= before);
}

} // verus!
