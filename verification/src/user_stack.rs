//! The initial user stack of a program: where `exec` puts the random bytes,
//! the argument strings, the auxiliary vector, `envp`, `argv` and `argc`.
//! Words are eight bytes, as on the 64-bit targets.
use vstd::prelude::*;
use crate::addr::PAGE_SIZE;
use crate::aux::{AT_NULL, AT_PAGESZ, AT_PHDR, AT_PHENT, AT_PHNUM, AT_RANDOM};

verus! {

/// The 8-byte value stored under the random bytes, for the C library.
pub const STACK_RANDOM: u64 = 0x114514FF114514;

/// The words the stack image writes, and where its strings go.
pub struct StackImage {
    /// Address and value of each 8-byte word, in the order written.
    pub words: Vec<(usize, u64)>,
    /// Where argument `i` goes, followed by a NUL byte.
    pub arg_addrs: Vec<usize>,
    /// The stack pointer the program starts with.
    pub sp: usize,
}

/// `x` rounded down to a multiple of 16.
pub open spec fn down16(x: int) -> int {
    x - x % 16
}

/// Bytes of the first `k` argument strings, each with its NUL.
pub open spec fn strings_len(lens: Seq<usize>, k: int) -> int
    decreases k,
{
    if k <= 0 || k > lens.len() {
        0
    } else {
        strings_len(lens, k - 1) + lens[k - 1] + 1
    }
}

/// Address of the random bytes: below four words at the top.
pub open spec fn random_pos(top: usize) -> int {
    top - 32
}

/// Address of the zero word that ends the (empty) environment strings.
pub open spec fn env_pos(top: usize) -> int {
    down16(random_pos(top) - 1) - 8
}

/// The top of the argument strings.
pub open spec fn strings_top(top: usize) -> int {
    down16(env_pos(top))
}

/// Address of argument `i`.
pub open spec fn arg_pos(top: usize, lens: Seq<usize>, i: int) -> int {
    strings_top(top) - strings_len(lens, i + 1)
}

/// The top of the auxiliary vector.
pub open spec fn aux_top(top: usize, lens: Seq<usize>) -> int {
    down16(strings_top(top) - strings_len(lens, lens.len() as int))
}

/// Address of the null `envp` entry.
pub open spec fn envp_pos(top: usize, lens: Seq<usize>) -> int {
    aux_top(top, lens) - 96 - 8
}

/// Address of `argv[0]`.
pub open spec fn argv_base(top: usize, lens: Seq<usize>) -> int {
    envp_pos(top, lens) - 8 * (lens.len() + 1)
}

/// Address of `argc`, where the program's stack pointer points.
pub open spec fn argc_pos(top: usize, lens: Seq<usize>) -> int {
    argv_base(top, lens) - 8
}

/// Type and value of auxiliary entry `j`, from the top down: end marker,
/// page size, program header count, entry size and address, and the
/// address of the random bytes.
pub open spec fn aux_entry(top: usize, j: int, ph_count: u16, entry_size: u16, phdr: usize) -> (usize, usize) {
    if j == 0 {
        (AT_NULL, 0)
    } else if j == 1 {
        (AT_PAGESZ, PAGE_SIZE)
    } else if j == 2 {
        (AT_PHNUM, ph_count as usize)
    } else if j == 3 {
        (AT_PHENT, entry_size as usize)
    } else if j == 4 {
        (AT_PHDR, phdr)
    } else {
        (AT_RANDOM, random_pos(top) as usize)
    }
}

/// Word `k` of the auxiliary vector below `at`: the type of entry `k / 2`
/// for even `k`, its value, 8 bytes above, for odd `k`.
pub open spec fn aux_word(top: usize, at: int, k: int, ph_count: u16, entry_size: u16, phdr: usize) -> (usize, u64) {
    let j = k / 2;
    let e = aux_entry(top, j, ph_count, entry_size, phdr);
    if k % 2 == 0 {
        ((at - 16 * (j + 1)) as usize, e.0 as u64)
    } else {
        ((at - 16 * (j + 1) + 8) as usize, e.1 as u64)
    }
}

/// The words of the image, in the order written: four words at the top,
/// the environment end, the auxiliary entries (type, then value, each
/// entry 16 bytes below the one before), the null `envp`, the null
/// `argv[n]`, `argv[0 .. n]`, and `argc`.
pub open spec fn stack_words(top: usize, lens: Seq<usize>, ph_count: u16, entry_size: u16, phdr: usize) -> Seq<
    (usize, u64),
> {
    let rd = random_pos(top);
    let n = lens.len() as int;
    let at = aux_top(top, lens);
    let base = argv_base(top, lens);
    seq![
        ((rd + 24) as usize, 0u64),
        ((rd + 16) as usize, STACK_RANDOM),
        ((rd + 8) as usize, 0x2000_0000_0000_0000u64),
        (rd as usize, 0x3000_0000_0000_0000u64),
        (env_pos(top) as usize, 0u64),
    ] + Seq::new(12, |k: int| aux_word(top, at, k, ph_count, entry_size, phdr)) + seq![(envp_pos(top, lens) as usize, 0u64), ((base + 8 * n) as usize, 0u64)] + Seq::new(
        n as nat,
        |i: int| ((base + 8 * i) as usize, arg_pos(top, lens, i) as u64),
    ) + seq![(argc_pos(top, lens) as usize, n as u64)]
}

proof fn lemma_strings_len_mono(lens: Seq<usize>, i: int, k: int)
    requires
        0 <= i <= k <= lens.len(),
    ensures
        strings_len(lens, i) <= strings_len(lens, k),
    decreases k - i,
{
    if i < k {
        lemma_strings_len_mono(lens, i, k - 1);
    }
}

/// `x` with its low four bits cleared.
fn align_down16(x: usize) -> (r: usize)
    ensures
        r == down16(x as int),
{
    let r = x & !0xfusize;
    assert(x & !0xfusize == x - x % 16) by (bit_vector);
    r
}

/// The initial stack for a program started with arguments of byte lengths
/// `arg_lens`, below the stack top `top`, with the program header count,
/// entry size and address for the auxiliary vector.
pub fn user_stack_image(top: usize, arg_lens: &Vec<usize>, ph_count: u16, entry_size: u16, phdr: usize) -> (img:
    StackImage)
    requires
        argc_pos(top, arg_lens@) >= 0,
    ensures
        img.words@ == stack_words(top, arg_lens@, ph_count, entry_size, phdr),
        img.arg_addrs@.len() == arg_lens@.len(),
        forall|i: int| 0 <= i < arg_lens@.len() ==> img.arg_addrs@[i] == arg_pos(top, arg_lens@, i),
        img.sp == argc_pos(top, arg_lens@),
        img.sp % 8 == 0,
{
    let ghost lens = arg_lens@;
    let ghost expected = stack_words(top, lens, ph_count, entry_size, phdr);
    let n = arg_lens.len();
    proof {
        lemma_strings_len_mono(lens, 0, n as int);
        assert(expected.len() == 20 + n);
    }
    let mut words: Vec<(usize, u64)> = Vec::new();
    let mut sp = top - 8;
    words.push((sp, 0u64));
    sp = sp - 8;
    words.push((sp, STACK_RANDOM));
    sp = sp - 8;
    words.push((sp, 0x2000_0000_0000_0000u64));
    sp = sp - 8;
    words.push((sp, 0x3000_0000_0000_0000u64));
    let rd_pos = sp;
    sp = align_down16(sp - 1);
    sp = sp - 8;
    words.push((sp, 0u64));
    sp = align_down16(sp);
    let ghost st = sp as int;
    assert(st == strings_top(top));
    assert(forall|q: int| 0 <= q < 5 ==> words@[q] == expected[q]);
    let mut arg_addrs: Vec<usize> = Vec::new();
    let mut i: usize = 0;
    while i < n
        invariant
            0 <= i <= n,
            n == lens.len(),
            lens == arg_lens@,
            st == strings_top(top),
            sp == st - strings_len(lens, i as int),
            strings_len(lens, n as int) <= st,
            arg_addrs@.len() == i,
            forall|q: int| 0 <= q < i ==> arg_addrs@[q] == arg_pos(top, lens, q),
            words@.len() == 5,
            forall|q: int| 0 <= q < 5 ==> words@[q] == expected[q],
        decreases n - i,
    {
        proof {
            lemma_strings_len_mono(lens, i as int + 1, n as int);
        }
        sp = sp - (arg_lens[i] + 1);
        arg_addrs.push(sp);
        i = i + 1;
    }
    sp = align_down16(sp);
    let at = sp;
    let mut j: usize = 0;
    while j < 6
        invariant
            0 <= j <= 6,
            at == aux_top(top, lens),
            at >= 112,
            sp == at - 16 * j,
            rd_pos == random_pos(top),
            expected == stack_words(top, lens, ph_count, entry_size, phdr),
            expected.len() == 20 + n,
            words@.len() == 5 + 2 * j,
            forall|q: int| 0 <= q < 5 + 2 * j ==> words@[q] == expected[q],
        decreases 6 - j,
    {
        let (t, v) = if j == 0 {
            (AT_NULL, 0)
        } else if j == 1 {
            (AT_PAGESZ, PAGE_SIZE)
        } else if j == 2 {
            (AT_PHNUM, ph_count as usize)
        } else if j == 3 {
            (AT_PHENT, entry_size as usize)
        } else if j == 4 {
            (AT_PHDR, phdr)
        } else {
            (AT_RANDOM, rd_pos)
        };
        sp = sp - 16;
        words.push((sp, t as u64));
        words.push((sp + 8, v as u64));
        proof {
            assert(expected[5 + 2 * j] == aux_word(top, at as int, 2 * j, ph_count, entry_size, phdr));
            assert(expected[5 + 2 * j + 1] == aux_word(top, at as int, 2 * j + 1, ph_count, entry_size, phdr));
            assert((2 * j as int) / 2 == j && (2 * j as int + 1) / 2 == j);
            assert((2 * j as int) % 2 == 0 && (2 * j as int + 1) % 2 == 1);
        }
        j = j + 1;
    }
    sp = sp - 8;
    words.push((sp, 0u64));
    sp = sp - 8 * (n + 1);
    let base = sp;
    words.push((base + 8 * n, 0u64));
    let mut k: usize = 0;
    while k < n
        invariant
            0 <= k <= n,
            n == lens.len(),
            lens == arg_lens@,
            base == argv_base(top, lens),
            base >= 8,
            base + 8 * n < top,
            arg_addrs@.len() == n,
            forall|q: int| 0 <= q < n ==> arg_addrs@[q] == arg_pos(top, lens, q),
            expected == stack_words(top, lens, ph_count, entry_size, phdr),
            expected.len() == 20 + n,
            words@.len() == 19 + k,
            forall|q: int| 0 <= q < 19 + k ==> words@[q] == expected[q],
        decreases n - k,
    {
        words.push((base + 8 * k, arg_addrs[k] as u64));
        proof {
            assert(expected[19 + k] == ((base + 8 * k) as usize, arg_pos(top, lens, k as int) as u64));
        }
        k = k + 1;
    }
    sp = base - 8;
    words.push((sp, n as u64));
    proof {
        assert(expected[19 + n] == (argc_pos(top, lens) as usize, n as u64));
        assert(words@ =~= expected);
        assert(at % 16 == 0);
    }
    sp = sp - sp % 8;
    StackImage { words, arg_addrs, sp }
}

} // verus!
