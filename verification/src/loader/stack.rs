//! The initial user stack: argument and environment strings, the
//! auxiliary vector, the pointer arrays and the argument count.
use vstd::prelude::*;

verus! {

/// Bytes taken by the strings from index `i` on, each with its NUL.
pub open spec fn suffix_len(strs: Seq<Seq<u8>>, i: int) -> int
    decreases strs.len() - i,
{
    if i >= strs.len() || i < 0 {
        0
    } else {
        strs[i].len() + 1 + suffix_len(strs, i + 1)
    }
}

/// Bytes taken by all the strings.
pub open spec fn strings_len(strs: Seq<Seq<u8>>) -> int {
    suffix_len(strs, 0)
}

/// Bytes taken by the auxiliary vector (with its terminating pair), the
/// environment and argument pointer arrays (each with its NULL) and the
/// argument count, for words of `w` bytes.
pub open spec fn tables_len(aux_len: int, n_env: int, n_arg: int, w: int) -> int {
    (aux_len + 1) * 2 * w + (n_env + 1) * w + (n_arg + 1) * w + w
}

/// The largest multiple of 16 not above `x`.
pub open spec fn floor16(x: int) -> int {
    x - x % 16
}

/// Where everything goes on the initial stack.
pub struct StackLayout {
    /// Address of each environment string.
    pub env_addrs: Vec<u64>,
    /// Address of each argument string.
    pub arg_addrs: Vec<u64>,
    /// Address of the auxiliary vector.
    pub auxv_at: u64,
    /// Address of the environment pointer array.
    pub envp_at: u64,
    /// Address of the argument pointer array.
    pub argv_at: u64,
    /// The initial stack pointer, where the argument count is.
    pub sp: u64,
}

/// One store to the new stack.
pub enum StackWrite {
    /// These bytes at `addr`.
    Bytes { addr: u64, data: Vec<u8> },
    /// These words at `addr`, each stored in its `width` low bytes,
    /// little-endian.
    Words { addr: u64, words: Vec<u64>, width: u64 },
}

/// Whether the stack from `top` down has room for everything.
pub open spec fn stack_fits(
    top: u64,
    args: Seq<Seq<u8>>,
    envs: Seq<Seq<u8>>,
    aux_len: int,
    w: int,
) -> bool {
    &&& w == 4 || w == 8
    &&& aux_len <= 0x10000
    &&& args.len() <= 0x10000
    &&& envs.len() <= 0x10000
    &&& strings_len(args) + strings_len(envs) + tables_len(aux_len, envs.len() as int, args.len() as int, w)
        + 16 <= top
}

proof fn lemma_suffix_bounds(strs: Seq<Seq<u8>>, i: int)
    requires
        0 <= i <= strs.len(),
    ensures
        0 <= suffix_len(strs, i) <= suffix_len(strs, 0),
        i < strs.len() ==> suffix_len(strs, i) == strs[i].len() + 1 + suffix_len(strs, i + 1),
    decreases i,
{
    if i > 0 {
        lemma_suffix_bounds(strs, i - 1);
    }
    lemma_suffix_nonneg(strs, i);
}

proof fn lemma_suffix_nonneg(strs: Seq<Seq<u8>>, i: int)
    ensures
        suffix_len(strs, i) >= 0,
    decreases strs.len() - i,
{
    if 0 <= i < strs.len() {
        lemma_suffix_nonneg(strs, i + 1);
    }
}

/// Place the strings of `strs` below `top`, last first; return where each
/// one starts.
fn place_strings(top: u64, strs: &Vec<Vec<u8>>) -> (r: Vec<u64>)
    requires
        strings_len(strs@.map_values(|s: Vec<u8>| s@)) <= top,
    ensures
        r@.len() == strs@.len(),
        forall|i: int|
            0 <= i < strs@.len() ==> #[trigger] r@[i] == top - suffix_len(
                strs@.map_values(|s: Vec<u8>| s@),
                i,
            ),
{
    let ghost ss = strs@.map_values(|s: Vec<u8>| s@);
    let mut addrs: Vec<u64> = Vec::new();
    let mut k: usize = 0;
    while k < strs.len()
        invariant
            k <= strs@.len(),
            addrs@.len() == k,
            forall|j: int| 0 <= j < k ==> addrs@[j] == 0,
        decreases strs@.len() - k,
    {
        addrs.push(0);
        k = k + 1;
    }
    let mut sp = top;
    let mut i = strs.len();
    proof {
        lemma_suffix_bounds(ss, ss.len() as int);
    }
    while i > 0
        invariant
            i <= strs@.len(),
            ss == strs@.map_values(|s: Vec<u8>| s@),
            strings_len(ss) <= top,
            sp == top - suffix_len(ss, i as int),
            addrs@.len() == strs@.len(),
            forall|j: int| i <= j < strs@.len() ==> #[trigger] addrs@[j] == top - suffix_len(ss, j),
        decreases i,
    {
        i = i - 1;
        proof {
            lemma_suffix_bounds(ss, i as int);
            assert(ss[i as int] == strs@[i as int]@);
        }
        sp = sp - (strs[i].len() as u64 + 1);
        addrs.set(i, sp);
    }
    addrs
}

/// Lay out the initial stack below `top` for words of `w` bytes: the
/// environment strings right below `top`, then the argument strings, then
/// the tables, placed so that the final stack pointer is 16-byte aligned.
pub fn layout(top: u64, args: &Vec<Vec<u8>>, envs: &Vec<Vec<u8>>, aux_len: u64, w: u64) -> (r:
    StackLayout)
    requires
        stack_fits(
            top,
            args@.map_values(|s: Vec<u8>| s@),
            envs@.map_values(|s: Vec<u8>| s@),
            aux_len as int,
            w as int,
        ),
    ensures
        ({
            let a = args@.map_values(|s: Vec<u8>| s@);
            let e = envs@.map_values(|s: Vec<u8>| s@);
            let bottom = top - strings_len(e) - strings_len(a);
            let tables = tables_len(aux_len as int, e.len() as int, a.len() as int, w as int);
            &&& r.env_addrs@.len() == e.len()
            &&& r.arg_addrs@.len() == a.len()
            &&& forall|i: int| 0 <= i < e.len() ==> #[trigger] r.env_addrs@[i] == top - suffix_len(e, i)
            &&& forall|i: int|
                0 <= i < a.len() ==> #[trigger] r.arg_addrs@[i] == top - strings_len(e) - suffix_len(a, i)
            &&& r.sp == floor16(bottom - tables)
            &&& r.sp % 16 == 0
            &&& r.argv_at == r.sp + w
            &&& r.envp_at == r.argv_at + (a.len() + 1) * w
            &&& r.auxv_at == r.envp_at + (e.len() + 1) * w
            &&& r.auxv_at + (aux_len + 1) * 2 * w <= bottom
        }),
{
    let ghost a = args@.map_values(|s: Vec<u8>| s@);
    let ghost e = envs@.map_values(|s: Vec<u8>| s@);
    proof {
        lemma_suffix_nonneg(a, 0);
        lemma_suffix_nonneg(e, 0);
    }
    let env_addrs = place_strings(top, envs);
    let mut env_total: u64 = 0;
    let mut i: usize = 0;
    while i < envs.len()
        invariant
            i <= envs@.len(),
            e == envs@.map_values(|s: Vec<u8>| s@),
            env_total == strings_len(e) - suffix_len(e, i as int),
            strings_len(e) <= top,
        decreases envs@.len() - i,
    {
        proof {
            lemma_suffix_bounds(e, i as int);
            lemma_suffix_nonneg(e, i + 1);
            assert(e[i as int] == envs@[i as int]@);
        }
        env_total = env_total + envs[i].len() as u64 + 1;
        i = i + 1;
    }
    proof {
        lemma_suffix_bounds(e, envs@.len() as int);
    }
    let below_env = top - env_total;
    let arg_addrs = place_strings(below_env, args);
    let mut arg_total: u64 = 0;
    let mut i: usize = 0;
    while i < args.len()
        invariant
            i <= args@.len(),
            a == args@.map_values(|s: Vec<u8>| s@),
            arg_total == strings_len(a) - suffix_len(a, i as int),
            strings_len(a) <= top,
        decreases args@.len() - i,
    {
        proof {
            lemma_suffix_bounds(a, i as int);
            lemma_suffix_nonneg(a, i + 1);
            assert(a[i as int] == args@[i as int]@);
        }
        arg_total = arg_total + args[i].len() as u64 + 1;
        i = i + 1;
    }
    proof {
        lemma_suffix_bounds(a, args@.len() as int);
    }
    let bottom = below_env - arg_total;
    let n_env = envs.len() as u64;
    let n_arg = args.len() as u64;
    let all_size = (aux_len + 1) * 2 * w + (n_env + 1) * w + (n_arg + 1) * w + w;
    let below = bottom - all_size;
    let align_sp = below - below % 16;
    let mut sp = align_sp + all_size;
    sp = sp - (aux_len + 1) * 2 * w;
    let auxv_at = sp;
    sp = sp - (n_env + 1) * w;
    let envp_at = sp;
    sp = sp - (n_arg + 1) * w;
    let argv_at = sp;
    sp = sp - w;
    StackLayout { env_addrs, arg_addrs, auxv_at, envp_at, argv_at, sp }
}

/// The stores that build the initial stack of `layout`: the environment
/// strings (last first), the argument strings (last first), the auxiliary
/// vector ended by a zero pair, the environment and argument pointer
/// arrays ended by NULL, and the argument count in 4 bytes.
pub fn stack_writes(
    layout: &StackLayout,
    args: &Vec<Vec<u8>>,
    envs: &Vec<Vec<u8>>,
    aux: &Vec<(u64, u64)>,
    w: u64,
) -> (r: Vec<StackWrite>)
    requires
        layout.env_addrs@.len() == envs@.len(),
        layout.arg_addrs@.len() == args@.len(),
        aux@.len() <= 0x10000,
        args@.len() <= 0x10000,
    ensures
        r@.len() == envs@.len() + args@.len() + 4,
        forall|i: int|
            0 <= i < envs@.len() ==> stores_bytes(
                #[trigger] r@[i],
                layout.env_addrs@[envs@.len() - 1 - i],
                envs@[envs@.len() - 1 - i]@.push(0u8),
            ),
        forall|i: int|
            0 <= i < args@.len() ==> stores_bytes(
                #[trigger] r@[envs@.len() + i],
                layout.arg_addrs@[args@.len() - 1 - i],
                args@[args@.len() - 1 - i]@.push(0u8),
            ),
        stores_words(r@[envs@.len() + args@.len() + 0int], layout.auxv_at, aux_words(aux@), w),
        stores_words(r@[envs@.len() + args@.len() + 1int], layout.envp_at, layout.env_addrs@.push(0), w),
        stores_words(r@[envs@.len() + args@.len() + 2int], layout.argv_at, layout.arg_addrs@.push(0), w),
        stores_words(r@[envs@.len() + args@.len() + 3int], layout.sp, seq![args@.len() as u64], 4),
{
    let mut out: Vec<StackWrite> = Vec::new();
    let mut i: usize = 0;
    while i < envs.len()
        invariant
            i <= envs@.len(),
            layout.env_addrs@.len() == envs@.len(),
            out@.len() == i,
            forall|k: int|
                0 <= k < i ==> stores_bytes(
                    #[trigger] out@[k],
                    layout.env_addrs@[envs@.len() - 1 - k],
                    envs@[envs@.len() - 1 - k]@.push(0u8),
                ),
        decreases envs@.len() - i,
    {
        let j = envs.len() - 1 - i;
        out.push(StackWrite::Bytes { addr: layout.env_addrs[j], data: with_nul(&envs[j]) });
        i = i + 1;
    }
    let mut i: usize = 0;
    while i < args.len()
        invariant
            i <= args@.len(),
            layout.arg_addrs@.len() == args@.len(),
            out@.len() == envs@.len() + i,
            forall|k: int|
                0 <= k < envs@.len() ==> stores_bytes(
                    #[trigger] out@[k],
                    layout.env_addrs@[envs@.len() - 1 - k],
                    envs@[envs@.len() - 1 - k]@.push(0u8),
                ),
            forall|k: int|
                0 <= k < i ==> stores_bytes(
                    #[trigger] out@[envs@.len() + k],
                    layout.arg_addrs@[args@.len() - 1 - k],
                    args@[args@.len() - 1 - k]@.push(0u8),
                ),
        decreases args@.len() - i,
    {
        let j = args.len() - 1 - i;
        out.push(StackWrite::Bytes { addr: layout.arg_addrs[j], data: with_nul(&args[j]) });
        i = i + 1;
    }
    out.push(StackWrite::Words { addr: layout.auxv_at, words: make_aux_words(aux), width: w });
    out.push(StackWrite::Words { addr: layout.envp_at, words: with_null(&layout.env_addrs), width: w });
    out.push(StackWrite::Words { addr: layout.argv_at, words: with_null(&layout.arg_addrs), width: w });
    let mut argc: Vec<u64> = Vec::new();
    argc.push(args.len() as u64);
    assert(argc@ =~= seq![args@.len() as u64]);
    out.push(StackWrite::Words { addr: layout.sp, words: argc, width: 4 });
    out
}

/// `w` stores `data` at `addr`.
pub open spec fn stores_bytes(w: StackWrite, addr: u64, data: Seq<u8>) -> bool {
    match w {
        StackWrite::Bytes { addr: a, data: d } => a == addr && d@ == data,
        _ => false,
    }
}

/// `w` stores `words` of `width` bytes at `addr`.
pub open spec fn stores_words(w: StackWrite, addr: u64, words: Seq<u64>, width: u64) -> bool {
    match w {
        StackWrite::Words { addr: a, words: ws, width: wd } => a == addr && ws@ == words && wd == width,
        _ => false,
    }
}

/// The words of an auxiliary vector: each key followed by its value, then
/// a zero key and a zero value.
pub open spec fn aux_words(aux: Seq<(u64, u64)>) -> Seq<u64>
    decreases aux.len(),
{
    if aux.len() == 0 {
        seq![0u64, 0u64]
    } else {
        seq![aux[0].0, aux[0].1] + aux_words(aux.drop_first())
    }
}

fn make_aux_words(aux: &Vec<(u64, u64)>) -> (r: Vec<u64>)
    ensures
        r@ == aux_words(aux@),
{
    let mut out: Vec<u64> = Vec::new();
    let mut i: usize = aux.len();
    let mut tail: Vec<u64> = Vec::new();
    tail.push(0);
    tail.push(0);
    assert(tail@ =~= aux_words(aux@.subrange(aux@.len() as int, aux@.len() as int)));
    while i > 0
        invariant
            i <= aux@.len(),
            tail@ == aux_words(aux@.subrange(i as int, aux@.len() as int)),
        decreases i,
    {
        i = i - 1;
        let (k, v) = aux[i];
        let mut next: Vec<u64> = Vec::new();
        next.push(k);
        next.push(v);
        let mut j: usize = 0;
        let ghost prev = tail@;
        while j < tail.len()
            invariant
                j <= tail@.len(),
                tail@ == prev,
                next@ == seq![k, v] + prev.subrange(0, j as int),
            decreases tail@.len() - j,
        {
            next.push(tail[j]);
            j = j + 1;
            assert(next@ =~= seq![k, v] + prev.subrange(0, j as int));
        }
        proof {
            let s = aux@.subrange(i as int, aux@.len() as int);
            assert(s.drop_first() =~= aux@.subrange(i + 1, aux@.len() as int));
            assert(s[0] == aux@[i as int]);
            assert(prev.subrange(0, prev.len() as int) =~= prev);
        }
        tail = next;
    }
    assert(aux@.subrange(0, aux@.len() as int) =~= aux@);
    out = tail;
    out
}

fn with_nul(s: &Vec<u8>) -> (r: Vec<u8>)
    ensures
        r@ == s@.push(0u8),
{
    let mut out: Vec<u8> = Vec::new();
    let mut i: usize = 0;
    while i < s.len()
        invariant
            i <= s@.len(),
            out@ == s@.subrange(0, i as int),
        decreases s@.len() - i,
    {
        out.push(s[i]);
        i = i + 1;
    }
    out.push(0);
    assert(out@ =~= s@.push(0u8));
    out
}

fn with_null(s: &Vec<u64>) -> (r: Vec<u64>)
    ensures
        r@ == s@.push(0u64),
{
    let mut out: Vec<u64> = Vec::new();
    let mut i: usize = 0;
    while i < s.len()
        invariant
            i <= s@.len(),
            out@ == s@.subrange(0, i as int),
        decreases s@.len() - i,
    {
        out.push(s[i]);
        i = i + 1;
    }
    out.push(0);
    assert(out@ =~= s@.push(0u64));
    out
}

} // verus!
