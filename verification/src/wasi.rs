//! The data layout of WASI's argument and environment calls, and the check of file descriptors.
use vstd::prelude::*;

verus! {

/// An error code of a WASI call.
#[derive(Debug, Clone, Copy, PartialEq, Eq, Structural)]
pub enum Errno {
    /// Bad file descriptor.
    Badf,
    /// Invalid argument.
    Inval,
    /// I/O error.
    Io,
}

/// Checks that `fd` names one of `num_fds` open file descriptors.
pub fn check_fd(num_fds: usize, fd: i32) -> (r: Result<(), Errno>)
    ensures
        r is Ok <==> 0 <= fd < num_fds,
        r is Err ==> r == Err::<(), Errno>(Errno::Badf),
{
    if fd < 0 || fd as usize >= num_fds {
        return Err(Errno::Badf);
    }
    Ok(())
}

/// The strings `strs`, each followed by a terminating zero byte, one after the other.
pub open spec fn terminated(strs: Seq<Seq<u8>>) -> Seq<u8>
    decreases strs.len(),
{
    if strs.len() == 0 {
        Seq::empty()
    } else {
        terminated(strs.drop_last()) + strs.last() + seq![0u8]
    }
}

/// The bytes of `strs`: the entries of a vector of byte strings.
pub open spec fn byte_strings(strs: Seq<Vec<u8>>) -> Seq<Seq<u8>> {
    Seq::new(strs.len(), |k: int| strs[k]@)
}

/// The environment entries `key=value`.
pub open spec fn env_entries(env: Seq<(Vec<u8>, Vec<u8>)>) -> Seq<Seq<u8>> {
    Seq::new(env.len(), |k: int| env[k].0@ + seq![0x3Du8] + env[k].1@)
}

proof fn lemma_terminated_prefix(strs: Seq<Seq<u8>>, k: int)
    requires
        0 <= k < strs.len(),
    ensures
        terminated(strs.subrange(0, k + 1)) == terminated(strs.subrange(0, k)) + strs[k] + seq![0u8],
{
    assert(strs.subrange(0, k + 1).drop_last() =~= strs.subrange(0, k));
}

/// The layout of strings in a guest buffer: the offset at which each starts, relative to the
/// buffer, and the buffer's content.
fn layout_strings(strs: &Vec<Vec<u8>>) -> (r: (Vec<u32>, Vec<u8>))
    requires
        terminated(byte_strings(strs@)).len() <= u32::MAX,
    ensures
        r.1@ == terminated(byte_strings(strs@)),
        r.0@.len() == strs@.len(),
        forall|k: int|
            0 <= k < strs@.len() ==> #[trigger] r.0@[k] == terminated(byte_strings(strs@).subrange(0, k)).len(),
{
    let ghost all = byte_strings(strs@);
    let mut offsets: Vec<u32> = Vec::new();
    let mut buf: Vec<u8> = Vec::new();
    let mut k: usize = 0;
    proof {
        assert(all.subrange(0, 0) =~= Seq::<Seq<u8>>::empty());
    }
    while k < strs.len()
        invariant
            k <= strs@.len(),
            all == byte_strings(strs@),
            terminated(all).len() <= u32::MAX,
            buf@ == terminated(all.subrange(0, k as int)),
            offsets@.len() == k,
            forall|j: int| 0 <= j < k ==> #[trigger] offsets@[j] == terminated(all.subrange(0, j)).len(),
        decreases strs@.len() - k,
    {
        proof {
            lemma_terminated_prefix(all, k as int);
            lemma_terminated_mono(all, k as int + 1, all.len() as int);
            assert(all.subrange(0, all.len() as int) =~= all);
        }
        offsets.push(buf.len() as u32);
        let s = &strs[k];
        let mut j: usize = 0;
        let ghost before = buf@;
        while j < s.len()
            invariant
                j <= s@.len(),
                buf@ == before + s@.subrange(0, j as int),
            decreases s@.len() - j,
        {
            buf.push(s[j]);
            proof {
                assert(buf@ =~= before + s@.subrange(0, j + 1));
            }
            j = j + 1;
        }
        buf.push(0u8);
        proof {
            assert(s@.subrange(0, s@.len() as int) =~= s@);
            assert(all[k as int] == s@);
            assert(buf@ =~= terminated(all.subrange(0, k + 1)));
        }
        k = k + 1;
    }
    proof {
        assert(all.subrange(0, all.len() as int) =~= all);
    }
    (offsets, buf)
}

/// A prefix of the strings takes no more room than all of them.
proof fn lemma_terminated_mono(strs: Seq<Seq<u8>>, a: int, b: int)
    requires
        0 <= a <= b <= strs.len(),
    ensures
        terminated(strs.subrange(0, a)).len() <= terminated(strs.subrange(0, b)).len(),
    decreases b - a,
{
    if a < b {
        lemma_terminated_mono(strs, a, b - 1);
        lemma_terminated_prefix(strs, b - 1);
    }
}

/// What `args_sizes_get` reports: the number of arguments and the room their zero-terminated
/// bytes take.
pub fn args_sizes(args: &Vec<Vec<u8>>) -> (r: (u32, u32))
    ensures
        r.0 == args@.len() as u32,
        r.1 == terminated(byte_strings(args@)).len() % 0x1_0000_0000,
{
    (args.len() as u32, terminated_size(args))
}

/// The room that the strings `strs` take, each zero-terminated, as a 32-bit size: the length
/// modulo 2^32.
fn terminated_size(strs: &Vec<Vec<u8>>) -> (r: u32)
    ensures
        r == terminated(byte_strings(strs@)).len() % 0x1_0000_0000,
{
    let ghost all = byte_strings(strs@);
    let mut total: u32 = 0;
    let mut k: usize = 0;
    proof {
        assert(all.subrange(0, 0) =~= Seq::<Seq<u8>>::empty());
    }
    while k < strs.len()
        invariant
            k <= strs@.len(),
            all == byte_strings(strs@),
            total == terminated(all.subrange(0, k as int)).len() % 0x1_0000_0000,
        decreases strs@.len() - k,
    {
        let ghost t = terminated(all.subrange(0, k as int)).len();
        let ghost l = strs@[k as int]@.len();
        proof {
            lemma_terminated_prefix(all, k as int);
            assert(terminated(all.subrange(0, k + 1)).len() == t + l + 1);
            vstd::arithmetic::div_mod::lemma_add_mod_noop(t as int, 1, 0x1_0000_0000);
            vstd::arithmetic::div_mod::lemma_add_mod_noop(t as int + 1, l as int, 0x1_0000_0000);
            vstd::arithmetic::div_mod::lemma_mod_twice(l as int, 0x1_0000_0000);
        }
        let t1: u64 = (total as u64 + 1) % 0x1_0000_0000;
        let len_mod: u64 = strs[k].len() as u64 % 0x1_0000_0000;
        let t2: u64 = (t1 + len_mod) % 0x1_0000_0000;
        total = t2 as u32;
        k = k + 1;
    }
    proof {
        assert(all.subrange(0, all.len() as int) =~= all);
    }
    total
}

/// What `args_get` writes: at `argv`, the address of each argument, the argument bytes being
/// placed at `argv_buf`; at `argv_buf`, the arguments, each followed by a zero byte.
pub fn args_layout(args: &Vec<Vec<u8>>, argv_buf: u32) -> (r: (Vec<u32>, Vec<u8>))
    requires
        argv_buf + terminated(byte_strings(args@)).len() <= u32::MAX,
    ensures
        r.1@ == terminated(byte_strings(args@)),
        r.0@.len() == args@.len(),
        forall|k: int|
            0 <= k < args@.len() ==> #[trigger] r.0@[k] == argv_buf + terminated(
                byte_strings(args@).subrange(0, k),
            ).len(),
{
    let (offsets, buf) = layout_strings(args);
    let mut heads: Vec<u32> = Vec::new();
    let mut k: usize = 0;
    while k < offsets.len()
        invariant
            k <= offsets@.len(),
            offsets@.len() == args@.len(),
            argv_buf + terminated(byte_strings(args@)).len() <= u32::MAX,
            forall|j: int|
                0 <= j < args@.len() ==> #[trigger] offsets@[j] == terminated(byte_strings(args@).subrange(0, j)).len(),
            heads@.len() == k,
            forall|j: int|
                0 <= j < k ==> #[trigger] heads@[j] == argv_buf + terminated(byte_strings(args@).subrange(0, j)).len(),
        decreases offsets@.len() - k,
    {
        proof {
            lemma_terminated_mono(byte_strings(args@), k as int, args@.len() as int);
            assert(byte_strings(args@).subrange(0, args@.len() as int) =~= byte_strings(args@));
        }
        heads.push(argv_buf + offsets[k]);
        k = k + 1;
    }
    (heads, buf)
}

/// The entries `key=value` of an environment.
fn env_strings(env: &Vec<(Vec<u8>, Vec<u8>)>) -> (r: Vec<Vec<u8>>)
    ensures
        byte_strings(r@) == env_entries(env@),
{
    let mut out: Vec<Vec<u8>> = Vec::new();
    let mut k: usize = 0;
    while k < env.len()
        invariant
            k <= env@.len(),
            out@.len() == k,
            forall|j: int| 0 <= j < k ==> (#[trigger] out@[j])@ == env_entries(env@)[j],
        decreases env@.len() - k,
    {
        let (key, value) = &env[k];
        let mut entry: Vec<u8> = key.clone();
        entry.push(0x3Du8);
        let mut j: usize = 0;
        let ghost before = entry@;
        while j < value.len()
            invariant
                j <= value@.len(),
                entry@ == before + value@.subrange(0, j as int),
            decreases value@.len() - j,
        {
            entry.push(value[j]);
            proof {
                assert(entry@ =~= before + value@.subrange(0, j + 1));
            }
            j = j + 1;
        }
        proof {
            assert(value@.subrange(0, value@.len() as int) =~= value@);
            assert(entry@ =~= env_entries(env@)[k as int]);
        }
        out.push(entry);
        k = k + 1;
    }
    proof {
        assert(byte_strings(out@) =~= env_entries(env@));
    }
    out
}

/// What `environ_sizes_get` reports: the number of variables and the room their entries
/// `key=value`, each zero-terminated, take.
pub fn environ_sizes(env: &Vec<(Vec<u8>, Vec<u8>)>) -> (r: (u32, u32))
    ensures
        r.0 == env@.len() as u32,
        r.1 == terminated(env_entries(env@)).len() % 0x1_0000_0000,
{
    let entries = env_strings(env);
    (env.len() as u32, terminated_size(&entries))
}

/// What `environ_get` writes: for each variable the offset of its entry in the buffer, and
/// the buffer: the entries `key=value`, each followed by a zero byte.
pub fn environ_layout(env: &Vec<(Vec<u8>, Vec<u8>)>) -> (r: (Vec<u32>, Vec<u8>))
    requires
        terminated(env_entries(env@)).len() <= u32::MAX,
    ensures
        r.1@ == terminated(env_entries(env@)),
        r.0@.len() == env@.len(),
        forall|k: int|
            0 <= k < env@.len() ==> #[trigger] r.0@[k] == terminated(env_entries(env@).subrange(0, k)).len(),
{
    let entries = env_strings(env);
    layout_strings(&entries)
}

/// Each argument stands, zero-terminated, at the place its address gives: the bytes from the
/// `k`-th offset on are the `k`-th string, then a zero byte.
pub proof fn law_layout_places_each_string(strs: Seq<Seq<u8>>, k: int)
    requires
        0 <= k < strs.len(),
    ensures
        ({
            let buf = terminated(strs);
            let start = terminated(strs.subrange(0, k)).len() as int;
            &&& start + strs[k].len() < buf.len()
            &&& buf.subrange(start, start + strs[k].len()) == strs[k]
            &&& buf[start + strs[k].len()] == 0u8
        }),
    decreases strs.len(),
{
    lemma_terminated_prefix(strs, k);
    lemma_terminated_mono(strs, k + 1, strs.len() as int);
    assert(strs.subrange(0, strs.len() as int) =~= strs);
    lemma_terminated_is_prefix(strs, k + 1, strs.len() as int);
    let p = terminated(strs.subrange(0, k));
    let q = terminated(strs.subrange(0, k + 1));
    let buf = terminated(strs);
    let start = p.len() as int;
    let end = start + strs[k].len() as int;
    assert(q =~= p + strs[k] + seq![0u8]);
    assert forall|j: int| 0 <= j < strs[k].len() implies buf.subrange(start, end)[j] == strs[k][j] by {
        assert(buf[start + j] == q[start + j]);
    }
    assert(buf.subrange(start, end) =~= strs[k]);
    assert(buf[end] == q[end]);
}

/// The layout of a prefix of the strings is a prefix of the layout of all of them.
proof fn lemma_terminated_is_prefix(strs: Seq<Seq<u8>>, a: int, b: int)
    requires
        0 <= a <= b <= strs.len(),
    ensures
        terminated(strs.subrange(0, a)).len() <= terminated(strs.subrange(0, b)).len(),
        forall|j: int|
            0 <= j < terminated(strs.subrange(0, a)).len() ==> terminated(strs.subrange(0, b))[j] == #[trigger] terminated(
                strs.subrange(0, a),
            )[j],
    decreases b - a,
{
    lemma_terminated_mono(strs, a, b);
    if a < b {
        lemma_terminated_is_prefix(strs, a, b - 1);
        lemma_terminated_prefix(strs, b - 1);
    }
}

} // verus!
