//! Resolution of `#!` interpreter scripts down to an ELF image.
use crate::errno::ENOEXEC;
use vstd::prelude::*;

verus! {

/// How many interpreter scripts may lead to the ELF image.
pub const RECURSION_LIMIT: usize = 4;

/// The first bytes of every ELF image.
pub open spec fn elf_magic() -> Seq<u8> {
    seq![0x7fu8, 0x45u8, 0x4cu8, 0x46u8]
}

/// What the first four bytes of a file make of it.
#[derive(Clone, Copy, PartialEq, Eq, Structural, Debug)]
pub enum MagicKind {
    /// `#!`: an interpreter script.
    Script,
    /// An ELF image.
    Elf,
    /// Not executable.
    Unknown,
}

/// Classify a file by its first four bytes.
pub fn classify_magic(magic: [u8; 4]) -> (r: MagicKind)
    ensures
        r == if magic@[0] == 35u8 && magic@[1] == 33u8 {
            MagicKind::Script
        } else if magic@ == elf_magic() {
            MagicKind::Elf
        } else {
            MagicKind::Unknown
        },
{
    if magic[0] == 35 && magic[1] == 33 {
        MagicKind::Script
    } else if magic[0] == 0x7f && magic[1] == 0x45 && magic[2] == 0x4c && magic[3] == 0x46 {
        assert(magic@ =~= elf_magic());
        MagicKind::Elf
    } else {
        MagicKind::Unknown
    }
}

/// Index of the first byte of `s` at or after `from` that satisfies `f`, or
/// `s.len()`.
pub open spec fn first_index(s: Seq<u8>, from: int, f: spec_fn(u8) -> bool) -> int
    decreases s.len() - from,
{
    if from >= s.len() {
        s.len() as int
    } else if f(s[from]) {
        from
    } else {
        first_index(s, from + 1, f)
    }
}

/// The interpreter line of a script: the bytes read after `#!` up to the
/// first newline or NUL.
pub open spec fn script_line(buf: Seq<u8>, nread: int) -> Seq<u8> {
    let body = buf.subrange(2, nread);
    body.subrange(0, first_index(body, 0, |b: u8| b == 10u8 || b == 0u8))
}

/// The interpreter named by a line, and its optional argument: the line is
/// split at its first blank.
pub open spec fn split_interpreter(line: Seq<u8>) -> (Seq<u8>, Option<Seq<u8>>) {
    let blank = first_index(line, 0, |b: u8| b == 32u8);
    if blank < line.len() {
        (line.subrange(0, blank), Some(line.subrange(blank + 1, line.len() as int)))
    } else {
        (line, None)
    }
}

/// The arguments of the interpreter: its name, then its argument if any,
/// with the script's path replacing the third slot (or appended when
/// there are only two).
pub open spec fn interpreter_args(
    args: Seq<Seq<u8>>,
    name: Seq<u8>,
    arg: Option<Seq<u8>>,
    exec_path: Seq<u8>,
) -> Seq<Seq<u8>> {
    let with_name = seq![name] + args;
    let with_arg = match arg {
        Some(a) => with_name.insert(1, a),
        None => with_name,
    };
    if with_arg.len() > 2 {
        with_arg.update(2, exec_path)
    } else {
        with_arg.push(exec_path)
    }
}

fn first_index_of(s: &Vec<u8>, from: usize, a: u8, b: u8) -> (r: usize)
    requires
        from <= s@.len(),
    ensures
        r == first_index(s@, from as int, |x: u8| x == a || x == b),
    decreases s@.len() - from,
{
    if from >= s.len() {
        s.len()
    } else if s[from] == a || s[from] == b {
        from
    } else {
        first_index_of(s, from + 1, a, b)
    }
}

proof fn lemma_first_index_bounds(s: Seq<u8>, from: int, f: spec_fn(u8) -> bool)
    requires
        0 <= from <= s.len(),
    ensures
        from <= first_index(s, from, f) <= s.len(),
    decreases s.len() - from,
{
    if from < s.len() && !f(s[from]) {
        lemma_first_index_bounds(s, from + 1, f);
    }
}

fn copy_range(s: &Vec<u8>, lo: usize, hi: usize) -> (r: Vec<u8>)
    requires
        lo <= hi <= s@.len(),
    ensures
        r@ == s@.subrange(lo as int, hi as int),
{
    let mut out: Vec<u8> = Vec::new();
    let mut i = lo;
    while i < hi
        invariant
            lo <= i <= hi,
            hi <= s@.len(),
            out@ == s@.subrange(lo as int, i as int),
        decreases hi - i,
    {
        out.push(s[i]);
        i = i + 1;
        assert(out@ =~= s@.subrange(lo as int, i as int));
    }
    out
}

/// The resolution of a program down to its ELF image, one script at a time.
pub struct ProgramLoader {
    /// The arguments the program will run with.
    pub args: Vec<Vec<u8>>,
    /// The path of the file being resolved.
    pub exec_path: Vec<u8>,
    /// Scripts gone through so far.
    pub nrecur: usize,
}

/// What to do with a file once its first bytes are known.
#[derive(Clone, Copy, PartialEq, Eq, Structural, Debug)]
pub enum MagicStep {
    /// Read its first 256 bytes: it is a script.
    ReadLine,
    /// Load it as an ELF image.
    LoadElf,
}

impl ProgramLoader {
    /// Start resolving the program at `exec_path` with `args`.
    pub fn new(exec_path: Vec<u8>, args: Vec<Vec<u8>>) -> (r: ProgramLoader)
        ensures
            r.exec_path@ == exec_path@,
            r.args@ == args@,
            r.nrecur == 0,
    {
        ProgramLoader { args, exec_path, nrecur: 0 }
    }

    /// Decide from the first four bytes: too many scripts or an unknown
    /// format give `ENOEXEC`.
    pub fn on_magic(&self, magic: [u8; 4]) -> (r: Result<MagicStep, u32>)
        ensures
            self.nrecur >= RECURSION_LIMIT ==> r == Err::<MagicStep, u32>(ENOEXEC),
            self.nrecur < RECURSION_LIMIT ==> r == match classify_magic_spec(magic@) {
                MagicKind::Script => Ok(MagicStep::ReadLine),
                MagicKind::Elf => Ok(MagicStep::LoadElf),
                MagicKind::Unknown => Err(ENOEXEC),
            },
    {
        if self.nrecur >= RECURSION_LIMIT {
            return Err(ENOEXEC);
        }
        match classify_magic(magic) {
            MagicKind::Script => Ok(MagicStep::ReadLine),
            MagicKind::Elf => Ok(MagicStep::LoadElf),
            MagicKind::Unknown => Err(ENOEXEC),
        }
    }

    /// Take in the first bytes of a script (`buf`, zero-filled past the
    /// `nread` bytes read) and return the interpreter to open next. The
    /// arguments become the interpreter's and the interpreter becomes the
    /// file being resolved. `ENOEXEC` when the bytes no longer start with `#!`.
    pub fn on_script(&mut self, buf: &Vec<u8>, nread: usize) -> (r: Result<Vec<u8>, u32>)
        requires
            buf@.len() >= 2,
            nread <= buf@.len(),
            old(self).nrecur < RECURSION_LIMIT,
        ensures
            !(buf@[0] == 35u8 && buf@[1] == 33u8) ==> r == Err::<Vec<u8>, u32>(ENOEXEC)
                && *final(self) == *old(self),
            buf@[0] == 35u8 && buf@[1] == 33u8 ==> nread >= 2 ==> ({
                let (name, arg) = split_interpreter(script_line(buf@, nread as int));
                &&& r matches Ok(n) && n@ == name
                &&& final(self).exec_path@ == name
                &&& final(self).nrecur == old(self).nrecur + 1
                &&& final(self).args@.map_values(|a: Vec<u8>| a@) == interpreter_args(
                    old(self).args@.map_values(|a: Vec<u8>| a@),
                    name,
                    arg,
                    old(self).exec_path@,
                )
            }),
            buf@[0] == 35u8 && buf@[1] == 33u8 && nread < 2 ==> r == Err::<Vec<u8>, u32>(ENOEXEC)
                && *final(self) == *old(self),
    {
        if !(buf[0] == 35 && buf[1] == 33) {
            return Err(ENOEXEC);
        }
        if nread < 2 {
            return Err(ENOEXEC);
        }
        let body = copy_range(buf, 2, nread);
        let end = first_index_of(&body, 0, 10, 0);
        proof {
            lemma_first_index_bounds(body@, 0, |b: u8| b == 10u8 || b == 0u8);
        }
        let line = copy_range(&body, 0, end);
        assert(line@ =~= script_line(buf@, nread as int));
        let blank = first_index_of(&line, 0, 32, 32);
        proof {
            lemma_first_index_bounds(line@, 0, |b: u8| b == 32u8 || b == 32u8);
            assert((|b: u8| b == 32u8 || b == 32u8) =~= (|b: u8| b == 32u8));
        }
        let (name, arg) = if blank < line.len() {
            (copy_range(&line, 0, blank), Some(copy_range(&line, blank + 1, line.len())))
        } else {
            (copy_range(&line, 0, line.len()), None)
        };
        let ghost old_args = self.args@.map_values(|a: Vec<u8>| a@);
        let ghost parts = split_interpreter(line@);
        proof {
            assert(name@ =~= parts.0);
            assert(arg is Some <==> parts.1 is Some);
            if arg is Some {
                assert(arg->0@ =~= parts.1->0);
            }
        }
        let name_copy = copy_range(&name, 0, name.len());
        assert(name_copy@ =~= parts.0);
        self.args.insert(0, name_copy);
        let ghost with_name = seq![parts.0] + old_args;
        assert(self.args@.map_values(|a: Vec<u8>| a@) =~= with_name);
        match arg {
            Some(a) => {
                self.args.insert(1, a);
            },
            None => {},
        }
        let ghost with_arg = match parts.1 {
            Some(a) => with_name.insert(1, a),
            None => with_name,
        };
        assert(self.args@.map_values(|a: Vec<u8>| a@) =~= with_arg);
        let exec_path = copy_range(&self.exec_path, 0, self.exec_path.len());
        assert(exec_path@ =~= old(self).exec_path@);
        if self.args.len() > 2 {
            self.args.set(2, exec_path);
        } else {
            self.args.push(exec_path);
        }
        proof {
            assert(self.args@.map_values(|a: Vec<u8>| a@) =~= interpreter_args(
                old_args,
                parts.0,
                parts.1,
                old(self).exec_path@,
            ));
        }
        self.exec_path = copy_range(&name, 0, name.len());
        assert(self.exec_path@ =~= name@);
        self.nrecur = self.nrecur + 1;
        Ok(name)
    }
}

/// `classify_magic` as a function of the bytes.
pub open spec fn classify_magic_spec(magic: Seq<u8>) -> MagicKind {
    if magic[0] == 35u8 && magic[1] == 33u8 {
        MagicKind::Script
    } else if magic == elf_magic() {
        MagicKind::Elf
    } else {
        MagicKind::Unknown
    }
}

} // verus!
