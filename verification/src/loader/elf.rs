//! ELF images: header decoding, the segments to map, the program's entry
//! point and the auxiliary vector. Addresses are 64-bit.
use crate::errno::ENOEXEC;
use crate::mem::mapping::Permission;
use vstd::prelude::*;

verus! {

/// Size of a page.
pub const PAGE: u64 = 4096;

/// A target address width: how an address is stored in an image.
pub trait ElfAddr: Sized {
    spec fn spec_from_u64(val: u64) -> Self;

    spec fn spec_to_u64(&self) -> u64;

    fn from_u64(val: u64) -> (r: Self)
        ensures
            r == Self::spec_from_u64(val),
    ;

    fn into_u64(&self) -> (r: u64)
        ensures
            r == self.spec_to_u64(),
    ;
}

impl ElfAddr for u32 {
    open spec fn spec_from_u64(val: u64) -> u32 {
        val as u32
    }

    open spec fn spec_to_u64(&self) -> u64 {
        *self as u64
    }

    fn from_u64(val: u64) -> (r: u32) {
        val as u32
    }

    fn into_u64(&self) -> (r: u64) {
        *self as u64
    }
}

impl ElfAddr for u64 {
    open spec fn spec_from_u64(val: u64) -> u64 {
        val
    }

    open spec fn spec_to_u64(&self) -> u64 {
        *self
    }

    fn from_u64(val: u64) -> (r: u64) {
        val
    }

    fn into_u64(&self) -> (r: u64) {
        *self
    }
}

/// The class of an ELF image: 32 or 64-bit.
#[derive(Clone, Copy, PartialEq, Eq, Structural, Debug)]
pub enum ElfClass {
    ThirtyTwo,
    SixtyFour,
}

impl ElfClass {
    /// Where a position-independent executable is loaded.
    pub open spec fn spec_dyn_base(self) -> u64 {
        match self {
            ElfClass::ThirtyTwo => 0x4000_0000,
            ElfClass::SixtyFour => 0x2aaa_0000_0000,
        }
    }

    /// Where the dynamic linker is loaded.
    pub open spec fn spec_ldso_base(self) -> u64 {
        match self {
            ElfClass::ThirtyTwo => 0xf000_0000,
            ElfClass::SixtyFour => 0x7000_0000_0000,
        }
    }

    /// The top of the initial stack.
    pub open spec fn spec_stack_base(self) -> u64 {
        match self {
            ElfClass::ThirtyTwo => 0xffff_0000,
            ElfClass::SixtyFour => 0x7fff_ffff_0000,
        }
    }

    /// Bytes in an address.
    pub open spec fn spec_word(self) -> u64 {
        match self {
            ElfClass::ThirtyTwo => 4,
            ElfClass::SixtyFour => 8,
        }
    }

    #[verifier::when_used_as_spec(spec_dyn_base)]
    pub fn dyn_base(self) -> (r: u64)
        ensures
            r == self.spec_dyn_base(),
    {
        match self {
            ElfClass::ThirtyTwo => 0x4000_0000,
            ElfClass::SixtyFour => 0x2aaa_0000_0000,
        }
    }

    #[verifier::when_used_as_spec(spec_ldso_base)]
    pub fn ldso_base(self) -> (r: u64)
        ensures
            r == self.spec_ldso_base(),
    {
        match self {
            ElfClass::ThirtyTwo => 0xf000_0000,
            ElfClass::SixtyFour => 0x7000_0000_0000,
        }
    }

    #[verifier::when_used_as_spec(spec_stack_base)]
    pub fn stack_base(self) -> (r: u64)
        ensures
            r == self.spec_stack_base(),
    {
        match self {
            ElfClass::ThirtyTwo => 0xffff_0000,
            ElfClass::SixtyFour => 0x7fff_ffff_0000,
        }
    }

    #[verifier::when_used_as_spec(spec_word)]
    pub fn word(self) -> (r: u64)
        ensures
            r == self.spec_word(),
    {
        match self {
            ElfClass::ThirtyTwo => 4,
            ElfClass::SixtyFour => 8,
        }
    }

    /// An address stored at this width.
    pub open spec fn spec_truncate(self, v: u64) -> u64 {
        match self {
            ElfClass::ThirtyTwo => (v as u32) as u64,
            ElfClass::SixtyFour => v,
        }
    }

    /// An address stored at this width.
    pub fn truncate(self, v: u64) -> (r: u64)
        ensures
            r == self.spec_truncate(v),
    {
        match self {
            ElfClass::ThirtyTwo => {
                let a: u32 = ElfAddr::from_u64(v);
                a.into_u64()
            },
            ElfClass::SixtyFour => v,
        }
    }
}

/// The 32-bit target.
pub struct ElfArch32;

/// The 64-bit target.
pub struct ElfArch64;

/// A target image class.
pub trait ElfArch {
    spec fn spec_class() -> ElfClass;

    fn class() -> (r: ElfClass)
        ensures
            r == Self::spec_class(),
    ;
}

impl ElfArch for ElfArch32 {
    open spec fn spec_class() -> ElfClass {
        ElfClass::ThirtyTwo
    }

    fn class() -> (r: ElfClass) {
        ElfClass::ThirtyTwo
    }
}

impl ElfArch for ElfArch64 {
    open spec fn spec_class() -> ElfClass {
        ElfClass::SixtyFour
    }

    fn class() -> (r: ElfClass) {
        ElfClass::SixtyFour
    }
}

/// The class named by the class byte of an ELF identification: 1 for
/// 32-bit, 2 for 64-bit; any other value is refused with `ENOEXEC`.
pub fn parse_class(class_byte: u8) -> (r: Result<ElfClass, u32>)
    ensures
        class_byte == 1 ==> r == Ok::<ElfClass, u32>(ElfClass::ThirtyTwo),
        class_byte == 2 ==> r == Ok::<ElfClass, u32>(ElfClass::SixtyFour),
        class_byte != 1 && class_byte != 2 ==> r == Err::<ElfClass, u32>(ENOEXEC),
{
    if class_byte == 1 {
        Ok(ElfClass::ThirtyTwo)
    } else if class_byte == 2 {
        Ok(ElfClass::SixtyFour)
    } else {
        Err(ENOEXEC)
    }
}

/// `xmas_elf::program::Flags::is_read`: the `PF_R` bit (4) is set.
#[verifier::external_body]
fn flags_is_read(bits: u32) -> (r: bool)
    ensures
        r == (bits & 4 == 4),
{
    xmas_elf::program::Flags(bits).is_read()
}

/// `xmas_elf::program::Flags::is_write`: the `PF_W` bit (2) is set.
#[verifier::external_body]
fn flags_is_write(bits: u32) -> (r: bool)
    ensures
        r == (bits & 2 == 2),
{
    xmas_elf::program::Flags(bits).is_write()
}

/// `xmas_elf::program::Flags::is_execute`: the `PF_X` bit (1) is set.
#[verifier::external_body]
fn flags_is_execute(bits: u32) -> (r: bool)
    ensures
        r == (bits & 1 == 1),
{
    xmas_elf::program::Flags(bits).is_execute()
}

/// `xmas_elf::header::Type_::as_type`: the object type 3 reads as a shared
/// object.
#[verifier::external_body]
fn type_is_shared_object(type_: u16) -> (r: bool)
    ensures
        r == (type_ == 3),
{
    match xmas_elf::header::Type_(type_).as_type() {
        xmas_elf::header::Type::SharedObject => true,
        _ => false,
    }
}

/// The access rights of a segment with flags `flags`.
pub open spec fn spec_segment_permission(flags: u32) -> Permission {
    Permission { read: flags & 4 == 4, write: flags & 2 == 2, execute: flags & 1 == 1 }
}

/// The access rights of a segment with flags `flags`.
pub fn segment_permission(flags: u32) -> (r: Permission)
    ensures
        r == spec_segment_permission(flags),
{
    Permission {
        read: flags_is_read(flags),
        write: flags_is_write(flags),
        execute: flags_is_execute(flags),
    }
}

/// Segment types the loader tells apart.
#[derive(Clone, Copy, PartialEq, Eq, Structural, Debug)]
pub enum SegmentType {
    Load,
    Interp,
    Other,
}

/// The type of a program header: `PT_LOAD` (1) and `PT_INTERP` (3) matter;
/// other known types are ignored; unknown ones (outside 0..=7, the GNU
/// read-only-after-relocation type and the OS and processor ranges) make
/// the image invalid.
pub open spec fn spec_segment_type(raw: u32) -> Option<SegmentType> {
    if raw == 1 {
        Some(SegmentType::Load)
    } else if raw == 3 {
        Some(SegmentType::Interp)
    } else if raw <= 7 || raw == 0x6474e552 || (0x60000000 <= raw <= 0x7fffffff) {
        Some(SegmentType::Other)
    } else {
        None
    }
}

/// The type of a program header, or `ENOEXEC` for an unknown type.
pub fn segment_type(raw: u32) -> (r: Result<SegmentType, u32>)
    ensures
        r matches Ok(t) ==> spec_segment_type(raw) == Some(t),
        r is Err ==> spec_segment_type(raw) is None && r == Err::<SegmentType, u32>(ENOEXEC),
{
    if raw == 1 {
        Ok(SegmentType::Load)
    } else if raw == 3 {
        Ok(SegmentType::Interp)
    } else if raw <= 7 || raw == 0x6474e552 || (0x60000000 <= raw && raw <= 0x7fffffff) {
        Ok(SegmentType::Other)
    } else {
        Err(ENOEXEC)
    }
}

/// A program header.
#[derive(Clone, Copy, PartialEq, Eq, Structural, Debug)]
pub struct ProgramHeader {
    pub type_: u32,
    pub flags: u32,
    pub offset: u64,
    pub virtual_addr: u64,
    pub file_size: u64,
    pub mem_size: u64,
}

/// `x` rounded down to a page.
pub open spec fn floor_page(x: int) -> int {
    x - x % PAGE as int
}

/// `x` rounded up to a page.
pub open spec fn ceil_page(x: int) -> int {
    if x % PAGE as int == 0 {
        x
    } else {
        x - x % PAGE as int + PAGE
    }
}

/// How one loadable segment is mapped.
#[derive(Clone, Copy, PartialEq, Eq, Structural, Debug)]
pub struct SegmentPlan {
    /// Start of the mapping: the segment's address rounded down to a page.
    pub start: u64,
    /// Length of the file-backed part, in whole pages (0 for none).
    pub file_len: u64,
    /// Page-aligned offset in the file of the file-backed part.
    pub file_offset: u64,
    /// Bytes of the file the file-backed part holds; the rest reads as zero.
    pub file_bytes: u64,
    /// Length of the whole mapping, in whole pages.
    pub mem_len: u64,
    pub permission: Permission,
}

impl SegmentPlan {
    /// Where the anonymous (zero-filled) part starts and how long it is,
    /// if the segment needs more memory than the file provides.
    pub open spec fn anonymous(self) -> Option<(u64, u64)> {
        if self.mem_len > self.file_len {
            Some(((self.start + self.file_len) as u64, (self.mem_len - self.file_len) as u64))
        } else {
            None
        }
    }

    /// The end of the mapping.
    pub open spec fn end(self) -> u64 {
        (self.start + self.mem_len) as u64
    }
}

/// Whether a segment loaded at `base` stays clear of the top of the
/// address space.
pub open spec fn segment_fits(base: u64, ph: ProgramHeader) -> bool {
    base + ph.virtual_addr + ph.mem_size + PAGE <= u64::MAX && base + ph.virtual_addr
        + ph.file_size + PAGE <= u64::MAX
}

fn floor_page_exec(x: u64) -> (r: u64)
    ensures
        r == floor_page(x as int),
{
    x - x % PAGE
}

fn ceil_page_exec(x: u64) -> (r: u64)
    requires
        x + PAGE <= u64::MAX,
    ensures
        r == ceil_page(x as int),
{
    if x % PAGE == 0 {
        x
    } else {
        x - x % PAGE + PAGE
    }
}

/// Plan the mapping of segment `ph` loaded at `base`: whole pages from the
/// segment's start, backed by the file up to the end of its file bytes and
/// by zeroed memory up to the end of its memory size.
pub fn plan_segment(ph: &ProgramHeader, base: u64) -> (r: SegmentPlan)
    requires
        segment_fits(base, *ph),
    ensures
        r.start == floor_page(base + ph.virtual_addr),
        r.mem_len == ceil_page(base + ph.virtual_addr + ph.mem_size) - r.start,
        r.file_len == ceil_page(base + ph.virtual_addr + ph.file_size) - r.start,
        r.file_offset == floor_page(ph.offset as int),
        r.file_bytes == base + ph.virtual_addr + ph.file_size - r.start,
        r.permission == spec_segment_permission(ph.flags),
        r.start % PAGE == 0,
        r.mem_len % PAGE == 0,
        r.file_len % PAGE == 0,
{
    let virtual_addr = base + ph.virtual_addr;
    let vmem_end = virtual_addr + ph.mem_size;
    let load_end = virtual_addr + ph.file_size;
    let start = floor_page_exec(virtual_addr);
    let mem_len = ceil_page_exec(vmem_end) - start;
    let file_len = ceil_page_exec(load_end) - start;
    proof {
        assert((ceil_page(vmem_end as int) - start) % PAGE as int == 0) by {
            vstd::arithmetic::div_mod::lemma_mod_self_0(PAGE as int);
            vstd::arithmetic::div_mod::lemma_sub_mod_noop(
                ceil_page(vmem_end as int),
                start as int,
                PAGE as int,
            );
            vstd::arithmetic::div_mod::lemma_sub_mod_noop(
                vmem_end as int,
                vmem_end as int % PAGE as int,
                PAGE as int,
            );
            vstd::arithmetic::div_mod::lemma_sub_mod_noop(
                virtual_addr as int,
                virtual_addr as int % PAGE as int,
                PAGE as int,
            );
            vstd::arithmetic::div_mod::lemma_mod_twice(vmem_end as int, PAGE as int);
            vstd::arithmetic::div_mod::lemma_mod_twice(virtual_addr as int, PAGE as int);
            vstd::arithmetic::div_mod::lemma_add_mod_noop(
                vmem_end as int - vmem_end as int % PAGE as int,
                PAGE as int,
                PAGE as int,
            );
        }
        assert((ceil_page(load_end as int) - start) % PAGE as int == 0) by {
            vstd::arithmetic::div_mod::lemma_mod_self_0(PAGE as int);
            vstd::arithmetic::div_mod::lemma_sub_mod_noop(
                ceil_page(load_end as int),
                start as int,
                PAGE as int,
            );
            vstd::arithmetic::div_mod::lemma_sub_mod_noop(
                load_end as int,
                load_end as int % PAGE as int,
                PAGE as int,
            );
            vstd::arithmetic::div_mod::lemma_sub_mod_noop(
                virtual_addr as int,
                virtual_addr as int % PAGE as int,
                PAGE as int,
            );
            vstd::arithmetic::div_mod::lemma_mod_twice(load_end as int, PAGE as int);
            vstd::arithmetic::div_mod::lemma_mod_twice(virtual_addr as int, PAGE as int);
            vstd::arithmetic::div_mod::lemma_add_mod_noop(
                load_end as int - load_end as int % PAGE as int,
                PAGE as int,
                PAGE as int,
            );
        }
    }
    SegmentPlan {
        start,
        file_len,
        file_offset: floor_page_exec(ph.offset),
        file_bytes: load_end - start,
        mem_len,
        permission: segment_permission(ph.flags),
    }
}

/// A parsed ELF image: what the loader reads from its headers.
pub struct ElfImage {
    pub class: ElfClass,
    /// The object type from the header.
    pub object_type: u16,
    pub entry_point: u64,
    pub ph_offset: u64,
    pub ph_count: u16,
    pub ph_entry_size: u16,
    pub program_headers: Vec<ProgramHeader>,
}

/// The first program header, from index `i`, whose file bytes contain
/// offset `off`, if any.
pub open spec fn header_containing(phs: Seq<ProgramHeader>, off: u64, i: int) -> Option<int>
    decreases phs.len() - i,
{
    if i >= phs.len() || i < 0 {
        None
    } else if phs[i].offset <= off < phs[i].offset + phs[i].file_size {
        Some(i)
    } else {
        header_containing(phs, off, i + 1)
    }
}

/// The kinds of the program headers from index `i` on, stopping at the
/// first header whose type is unknown.
pub open spec fn all_types_known(phs: Seq<ProgramHeader>) -> bool {
    forall|i: int| 0 <= i < phs.len() ==> (spec_segment_type(#[trigger] phs[i].type_) is Some)
}

impl ElfImage {
    /// Whether the image is a shared object (a position-independent
    /// executable or the dynamic linker).
    pub fn is_shared_object(&self) -> (r: bool)
        ensures
            r == (self.object_type == 3),
    {
        type_is_shared_object(self.object_type)
    }

    /// The address at which the loaded image holds its program headers:
    /// found through the first segment whose file bytes contain them,
    /// `ENOEXEC` if none does.
    pub fn ph_addr(&self) -> (r: Result<u64, u32>)
        requires
            forall|i: int|
                0 <= i < self.program_headers@.len() ==> #[trigger] self.program_headers@[i].offset
                    + self.program_headers@[i].file_size <= u64::MAX
                    && self.program_headers@[i].virtual_addr + self.ph_offset <= u64::MAX,
        ensures
            r == match header_containing(self.program_headers@, self.ph_offset, 0) {
                Some(i) => Ok::<u64, u32>(
                    (self.ph_offset - self.program_headers@[i].offset
                        + self.program_headers@[i].virtual_addr) as u64,
                ),
                None => Err(ENOEXEC),
            },
    {
        let mut i: usize = 0;
        while i < self.program_headers.len()
            invariant
                i <= self.program_headers@.len(),
                header_containing(self.program_headers@, self.ph_offset, i as int)
                    == header_containing(self.program_headers@, self.ph_offset, 0),
                forall|j: int|
                    0 <= j < self.program_headers@.len() ==> #[trigger] self.program_headers@[j].offset
                        + self.program_headers@[j].file_size <= u64::MAX
                        && self.program_headers@[j].virtual_addr + self.ph_offset <= u64::MAX,
            decreases self.program_headers@.len() - i,
        {
            let ph = &self.program_headers[i];
            if ph.offset <= self.ph_offset && self.ph_offset < ph.offset + ph.file_size {
                return Ok(self.ph_offset - ph.offset + ph.virtual_addr);
            }
            i = i + 1;
        }
        Err(ENOEXEC)
    }

    /// Where the image is loaded: at the dynamic base for a shared object,
    /// at zero otherwise.
    pub fn load_base(&self) -> (r: u64)
        ensures
            r == if self.object_type == 3 {
                self.class.spec_dyn_base()
            } else {
                0
            },
    {
        if self.is_shared_object() {
            self.class.dyn_base()
        } else {
            0
        }
    }

    /// The mappings of all loadable segments, in header order, when the
    /// image is loaded at `base`, and the end of the highest one (0 if none).
    /// `ENOEXEC` when a header has an unknown type.
    pub fn plan_segments(&self, base: u64) -> (r: Result<(Vec<SegmentPlan>, u64), u32>)
        requires
            forall|i: int|
                0 <= i < self.program_headers@.len() ==> segment_fits(
                    base,
                    #[trigger] self.program_headers@[i],
                ),
        ensures
            r is Err <==> !all_types_known(self.program_headers@),
            r matches Err(e) ==> e == ENOEXEC,
            r matches Ok((plans, end)) ==> {
                &&& plans@.len() == loads(self.program_headers@).len()
                &&& forall|k: int|
                    0 <= k < plans@.len() ==> #[trigger] plans@[k] == plan_of(
                        loads(self.program_headers@)[k],
                        base,
                    )
                &&& end == max_end(plans@)
            },
    {
        let mut plans: Vec<SegmentPlan> = Vec::new();
        let mut end: u64 = 0;
        let mut i: usize = 0;
        while i < self.program_headers.len()
            invariant
                i <= self.program_headers@.len(),
                all_types_known(self.program_headers@.subrange(0, i as int)),
                plans@.len() == loads(self.program_headers@.subrange(0, i as int)).len(),
                forall|k: int|
                    0 <= k < plans@.len() ==> #[trigger] plans@[k] == plan_of(
                        loads(self.program_headers@.subrange(0, i as int))[k],
                        base,
                    ),
                end == max_end(plans@),
                forall|j: int|
                    0 <= j < self.program_headers@.len() ==> segment_fits(
                        base,
                        #[trigger] self.program_headers@[j],
                    ),
            decreases self.program_headers@.len() - i,
        {
            let ph = self.program_headers[i];
            let ghost prefix = self.program_headers@.subrange(0, i as int);
            let ghost next = self.program_headers@.subrange(0, i + 1);
            assert(next =~= prefix.push(ph));
            let t = match segment_type(ph.type_) {
                Ok(t) => t,
                Err(e) => {
                    proof {
                        assert(!all_types_known(self.program_headers@)) by {
                            assert(spec_segment_type(self.program_headers@[i as int].type_) is None);
                        }
                    }
                    return Err(e);
                },
            };
            proof {
                lemma_loads_push(prefix, ph);
                assert forall|j: int| 0 <= j < next.len() implies (spec_segment_type(
                    #[trigger] next[j].type_,
                ) is Some) by {
                    if j < prefix.len() {
                        assert(next[j] == prefix[j]);
                    }
                }
            }
            match t {
                SegmentType::Load => {
                    let plan = plan_segment(&ph, base);
                    let ghost old_plans = plans@;
                    plans.push(plan);
                    if plan.start + plan.mem_len > end {
                        end = plan.start + plan.mem_len;
                    }
                    proof {
                        assert(plans@.drop_last() =~= old_plans);
                    }
                },
                _ => {},
            }
            i = i + 1;
        }
        proof {
            assert(self.program_headers@.subrange(0, i as int) =~= self.program_headers@);
        }
        Ok((plans, end))
    }

    /// Where the dynamic linker's path lies in the file: offset and length
    /// (without its NUL) of the first `PT_INTERP` segment, if any. `ENOEXEC`
    /// when a header before it has an unknown type.
    pub fn interp(&self) -> (r: Result<Option<(u64, u64)>, u32>)
        requires
            forall|i: int|
                0 <= i < self.program_headers@.len() && #[trigger] self.program_headers@[i].type_
                    == 3 ==> self.program_headers@[i].file_size >= 1,
        ensures
            r == interp_of(self.program_headers@),
    {
        let mut i: usize = 0;
        assert(self.program_headers@.subrange(0, self.program_headers@.len() as int)
            =~= self.program_headers@);
        while i < self.program_headers.len()
            invariant
                i <= self.program_headers@.len(),
                interp_of(self.program_headers@) == interp_of(
                    self.program_headers@.subrange(i as int, self.program_headers@.len() as int),
                ),
                forall|j: int|
                    0 <= j < self.program_headers@.len() && #[trigger] self.program_headers@[j].type_
                        == 3 ==> self.program_headers@[j].file_size >= 1,
            decreases self.program_headers@.len() - i,
        {
            let ph = self.program_headers[i];
            let ghost rest = self.program_headers@.subrange(i as int, self.program_headers@.len() as int);
            assert(rest[0] == ph);
            assert(rest.drop_first() =~= self.program_headers@.subrange(i + 1, self.program_headers@.len() as int));
            match segment_type(ph.type_) {
                Err(e) => {
                    return Err(e);
                },
                Ok(SegmentType::Interp) => {
                    return Ok(Some((ph.offset, ph.file_size - 1)));
                },
                Ok(_) => {},
            }
            i = i + 1;
        }
        Ok(None)
    }

    /// The address where the program starts: the dynamic linker's entry if
    /// there is one, the image's entry moved by `base` for a shared object,
    /// the image's entry otherwise.
    pub fn entry_ip(&self, base: u64, ldso_entry: Option<u64>) -> (r: u64)
        requires
            self.object_type == 3 ==> base + self.entry_point <= u64::MAX,
        ensures
            r == match ldso_entry {
                Some(e) => e,
                None => if self.object_type == 3 {
                    (base + self.entry_point) as u64
                } else {
                    self.entry_point
                },
            },
    {
        match ldso_entry {
            Some(e) => e,
            None => {
                if self.is_shared_object() {
                    base + self.entry_point
                } else {
                    self.entry_point
                }
            },
        }
    }

    /// The auxiliary vector, by key: program headers' address, entry size
    /// and count, page size, the dynamic linker's base if any, the entry
    /// point and the address of the random bytes below the stack top. Shared
    /// objects have their addresses moved by `elf_base`; values are stored
    /// at the image's width.
    pub fn aux_vec(&self, elf_base: u64, ldso_base: Option<u64>) -> (r: Result<Vec<(u64, u64)>, u32>)
        requires
            forall|i: int|
                0 <= i < self.program_headers@.len() ==> #[trigger] self.program_headers@[i].offset
                    + self.program_headers@[i].file_size <= u64::MAX
                    && self.program_headers@[i].virtual_addr + self.ph_offset <= u64::MAX,
            self.object_type == 3 ==> elf_base + self.entry_point <= u64::MAX && forall|i: int|
                0 <= i < self.program_headers@.len() ==> elf_base + #[trigger] self.program_headers@[i].virtual_addr
                    + self.ph_offset <= u64::MAX,
        ensures
            header_containing(self.program_headers@, self.ph_offset, 0) is None ==> r
                == Err::<Vec<(u64, u64)>, u32>(ENOEXEC),
            header_containing(self.program_headers@, self.ph_offset, 0) matches Some(i) ==> {
                let shared = self.object_type == 3;
                let ph = self.program_headers@[i];
                let phdr = (self.ph_offset - ph.offset + ph.virtual_addr) as u64;
                let c = self.class;
                &&& r matches Ok(v) && v@ == aux_entries(
                    c,
                    if shared {
                        (elf_base + phdr) as u64
                    } else {
                        phdr
                    },
                    self.ph_entry_size as u64,
                    self.ph_count as u64,
                    ldso_base,
                    if shared {
                        (elf_base + self.entry_point) as u64
                    } else {
                        self.entry_point
                    },
                )
            },
    {
        let shared = self.is_shared_object();
        let phdr = match self.ph_addr() {
            Ok(a) => a,
            Err(e) => return Err(e),
        };
        let phdr = if shared {
            proof {
                let i = header_containing(self.program_headers@, self.ph_offset, 0)->0;
                lemma_header_containing_range(self.program_headers@, self.ph_offset, 0);
                assert(elf_base + self.program_headers@[i].virtual_addr + self.ph_offset <= u64::MAX);
            }
            elf_base + phdr
        } else {
            phdr
        };
        let entry = if shared {
            elf_base + self.entry_point
        } else {
            self.entry_point
        };
        let c = self.class;
        let mut v: Vec<(u64, u64)> = Vec::new();
        v.push((AT_PHDR, c.truncate(phdr)));
        v.push((AT_PHENT, c.truncate(self.ph_entry_size as u64)));
        v.push((AT_PHNUM, c.truncate(self.ph_count as u64)));
        v.push((AT_PAGESZ, c.truncate(PAGE)));
        match ldso_base {
            Some(b) => {
                v.push((AT_BASE, c.truncate(b)));
            },
            None => {},
        }
        v.push((AT_ENTRY, c.truncate(entry)));
        v.push((AT_RANDOM, c.truncate(c.stack_base() - 16)));
        assert(v@ =~= aux_entries(c, phdr, self.ph_entry_size as u64, self.ph_count as u64, ldso_base, entry));
        Ok(v)
    }
}

pub const AT_NULL: u64 = 0;
pub const AT_PHDR: u64 = 3;
pub const AT_PHENT: u64 = 4;
pub const AT_PHNUM: u64 = 5;
pub const AT_PAGESZ: u64 = 6;
pub const AT_BASE: u64 = 7;
pub const AT_ENTRY: u64 = 9;
pub const AT_RANDOM: u64 = 25;

/// The auxiliary vector entries in key order.
pub open spec fn aux_entries(
    c: ElfClass,
    phdr: u64,
    phent: u64,
    phnum: u64,
    ldso_base: Option<u64>,
    entry: u64,
) -> Seq<(u64, u64)> {
    let head = seq![
        (AT_PHDR, c.spec_truncate(phdr)),
        (AT_PHENT, c.spec_truncate(phent)),
        (AT_PHNUM, c.spec_truncate(phnum)),
        (AT_PAGESZ, c.spec_truncate(PAGE)),
    ];
    let with_base = match ldso_base {
        Some(b) => head.push((AT_BASE, c.spec_truncate(b))),
        None => head,
    };
    with_base.push((AT_ENTRY, c.spec_truncate(entry))).push(
        (AT_RANDOM, c.spec_truncate((c.spec_stack_base() - 16) as u64)),
    )
}

proof fn lemma_header_containing_range(phs: Seq<ProgramHeader>, off: u64, i: int)
    requires
        0 <= i,
    ensures
        header_containing(phs, off, i) matches Some(k) ==> i <= k < phs.len() && phs[k].offset
            <= off < phs[k].offset + phs[k].file_size,
    decreases phs.len() - i,
{
    if i < phs.len() && !(phs[i].offset <= off < phs[i].offset + phs[i].file_size) {
        lemma_header_containing_range(phs, off, i + 1);
    }
}

/// The loadable program headers, in order.
pub open spec fn loads(phs: Seq<ProgramHeader>) -> Seq<ProgramHeader> {
    phs.filter(|ph: ProgramHeader| ph.type_ == 1)
}

/// The plan of a header, as `plan_segment` makes it.
pub open spec fn plan_of(ph: ProgramHeader, base: u64) -> SegmentPlan {
    let start = floor_page(base + ph.virtual_addr);
    SegmentPlan {
        start: start as u64,
        file_len: (ceil_page(base + ph.virtual_addr + ph.file_size) - start) as u64,
        file_offset: floor_page(ph.offset as int) as u64,
        file_bytes: (base + ph.virtual_addr + ph.file_size - start) as u64,
        mem_len: (ceil_page(base + ph.virtual_addr + ph.mem_size) - start) as u64,
        permission: spec_segment_permission(ph.flags),
    }
}

/// The highest end of the plans, 0 for none.
pub open spec fn max_end(plans: Seq<SegmentPlan>) -> u64
    decreases plans.len(),
{
    if plans.len() == 0 {
        0
    } else {
        let rest = max_end(plans.drop_last());
        if plans.last().start + plans.last().mem_len > rest {
            (plans.last().start + plans.last().mem_len) as u64
        } else {
            rest
        }
    }
}

/// The dynamic linker segment: the first `PT_INTERP`, unless a header of
/// unknown type comes first.
pub open spec fn interp_of(phs: Seq<ProgramHeader>) -> Result<Option<(u64, u64)>, u32>
    decreases phs.len(),
{
    if phs.len() == 0 {
        Ok(None)
    } else {
        match spec_segment_type(phs[0].type_) {
            None => Err(ENOEXEC),
            Some(SegmentType::Interp) => Ok(Some((phs[0].offset, (phs[0].file_size - 1) as u64))),
            Some(_) => interp_of(phs.drop_first()),
        }
    }
}

proof fn lemma_loads_push(s: Seq<ProgramHeader>, ph: ProgramHeader)
    ensures
        loads(s.push(ph)) == if ph.type_ == 1 {
            loads(s).push(ph)
        } else {
            loads(s)
        },
{
    reveal(Seq::filter);
    assert(s.push(ph).drop_last() =~= s);
    assert(s.push(ph).last() == ph);
}

} // verus!
