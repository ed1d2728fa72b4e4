//! The initial stack of a process.

use crate::bytes::{
    get64, le64, lemma_get64, patch, push_fill, push_range, push_u64, splice, zeroed, zeros,
};
use crate::elf::texts;
use vstd::prelude::*;
use vstd::utf8::encode_utf8;

verus! {

/// The stack while strings are put at its end: the page, how much of it below
/// the strings is free, and the offset of each string.
#[verifier::ext_equal]
pub struct Strings {
    pub page: Seq<u8>,
    pub off: int,
    pub offs: Seq<int>,
}

/// A string with the zero byte behind it.
pub open spec fn c_string(s: Seq<char>) -> Seq<u8> {
    encode_utf8(s).push(0)
}

/// The first `n` strings at the end of a page, the first one highest; None if
/// they would leave less than 256 bytes below them.
pub open spec fn strings_s(size: int, texts: Seq<Seq<char>>, n: nat) -> Option<Strings>
    decreases n,
{
    if n == 0 {
        Some(Strings { page: zeros(size as nat), off: size, offs: Seq::empty() })
    } else {
        match strings_s(size, texts, (n - 1) as nat) {
            None => None,
            Some(st) => {
                let c = c_string(texts[n - 1]);
                let off = st.off - c.len();
                if off < 256 {
                    None
                } else {
                    Some(
                        Strings {
                            page: patch(st.page, off, c),
                            off,
                            offs: st.offs.push(off),
                        },
                    )
                }
            },
        }
    }
}

/// The words of some addresses.
pub open spec fn pointers(base: u64, offs: Seq<int>) -> Seq<u8>
    decreases offs.len(),
{
    if offs.len() == 0 {
        Seq::empty()
    } else {
        pointers(base, offs.drop_last()) + le64((base + offs.last()) as u64)
    }
}

/// The table at the top of the stack: the number of arguments, their addresses,
/// a zero, the addresses of the environment, a zero, and an empty auxiliary
/// entry.
pub open spec fn table_s(base: u64, offs: Seq<int>, argc: int) -> Seq<u8> {
    le64(argc as u64) + pointers(base, offs.take(argc)) + le64(0) + pointers(
        base,
        offs.skip(argc),
    ) + zeros(24)
}

/// How far below the strings the stack pointer is: the strings end at a
/// multiple of 16, with a word between if the table has an odd number of words.
pub open spec fn table_end(off: int, words: int) -> int {
    off - off % 16 - (if words % 2 != 0 {
        8int
    } else {
        0int
    })
}

/// The stack page of a process and its stack pointer.
pub open spec fn user_stack_s(
    base: u64,
    size: int,
    args: Seq<Seq<char>>,
    envs: Seq<Seq<char>>,
) -> Result<(u64, Seq<u8>), Seq<char>> {
    let words = args.len() + envs.len() + 5;
    match strings_s(size, args + envs, args.len() + envs.len()) {
        None => Err("argv/envp too large for initial stack page"@),
        Some(st) => {
            let end = table_end(st.off, words as int);
            if 8 * words > end {
                Err("argv/envp table too large for initial stack page"@)
            } else {
                Ok(
                    (
                        (base + end - 8 * words) as u64,
                        patch(
                            st.page,
                            end - 8 * words,
                            table_s(base, st.offs, args.len() as int),
                        ),
                    ),
                )
            }
        },
    }
}

/// Puts strings at the end of a page.
fn place_strings(
    page: &mut Vec<u8>,
    off: usize,
    strings: &Vec<String>,
    offs: &mut Vec<usize>,
    Ghost(all): Ghost<Seq<Seq<char>>>,
    Ghost(first): Ghost<nat>,
    Ghost(size): Ghost<int>,
) -> (r: Option<usize>)
    requires
        0 <= size <= usize::MAX,
        first + strings@.len() <= all.len(),
        all.subrange(first as int, (first + strings@.len()) as int) == texts(strings@),
        strings_s(size, all, first) matches Some(st) && st.page == old(page)@ && st.off == off
            && as_ints(old(offs)@) == st.offs,
        old(page)@.len() == size,
        off <= size,
    ensures
        match r {
            Some(o) => strings_s(size, all, (first + strings@.len()) as nat) matches Some(st)
                && st.page == final(page)@ && st.off == o && as_ints(final(offs)@) == st.offs
                && final(page)@.len() == size && o <= size,
            None => strings_s(size, all, (first + strings@.len()) as nat) is None,
        },
{
    let mut off: usize = off;
    let mut i: usize = 0;
    while i < strings.len()
        invariant
            0 <= size <= usize::MAX,
            i <= strings@.len(),
            first + strings@.len() <= all.len(),
            all.subrange(first as int, (first + strings@.len()) as int) == texts(strings@),
            strings_s(size, all, (first + i) as nat) matches Some(st) && st.page == page@ && st.off
                == off && as_ints(offs@) == st.offs,
            page@.len() == size,
            off <= size,
        decreases strings@.len() - i,
    {
        let ghost n: nat = (first + i) as nat;
        let bytes = strings[i].as_str().as_bytes();
        let len: usize = bytes.len();
        proof {
            assert(texts(strings@)[i as int] == strings@[i as int]@);
            assert(all[n as int] == all.subrange(
                first as int,
                (first + strings@.len()) as int,
            )[i as int]);
            assert(c_string(all[n as int]) == bytes@.push(0));
        }
        if len >= off || off - len < 257 {
            proof {
                assert(strings_s(size, all, (n + 1) as nat) is None);
                lemma_strings_none(size, all, (n + 1) as nat, (first + strings@.len()) as nat);
            }
            return None;
        }
        let mut text: Vec<u8> = Vec::new();
        push_range(&mut text, bytes, 0, len);
        text.push(0);
        assert(text@ =~= c_string(all[n as int]));
        off = off - (len + 1);
        splice(page, off, text.as_slice());
        let ghost before = offs@;
        offs.push(off);
        assert(as_ints(offs@) =~= as_ints(before).push(off as int));
        assert((first + (i + 1)) as nat == n + 1);
        i = i + 1;
    }
    Some(off)
}

/// Machine numbers as integers.
pub open spec fn as_ints(v: Seq<usize>) -> Seq<int> {
    v.map_values(|x: usize| x as int)
}

proof fn lemma_strings_none(size: int, texts: Seq<Seq<char>>, a: nat, b: nat)
    requires
        a <= b,
        strings_s(size, texts, a) is None,
    ensures
        strings_s(size, texts, b) is None,
    decreases b,
{
    if a < b {
        lemma_strings_none(size, texts, a, (b - 1) as nat);
    }
}

/// What holds of strings that were placed.
proof fn lemma_strings(size: int, texts: Seq<Seq<char>>, n: nat)
    requires
        strings_s(size, texts, n) is Some,
        0 <= size,
    ensures
        ({
            let st = strings_s(size, texts, n)->Some_0;
            &&& st.page.len() == size
            &&& n > 0 ==> 256 <= st.off
            &&& 0 <= st.off <= size - n
            &&& st.offs.len() == n
            &&& forall|i: int| 0 <= i < n ==> st.off <= #[trigger] st.offs[i] && st.offs[i]
                + c_string(texts[i]).len() <= size && st.page.subrange(
                st.offs[i],
                st.offs[i] + c_string(texts[i]).len() as int,
            ) == c_string(texts[i])
        }),
    decreases n,
{
    if n > 0 {
        lemma_strings(size, texts, (n - 1) as nat);
        let st0 = strings_s(size, texts, (n - 1) as nat)->Some_0;
        let st = strings_s(size, texts, n)->Some_0;
        let c = c_string(texts[n - 1]);
        assert(st.page.len() == size);
        assert forall|i: int| 0 <= i < n implies st.off <= #[trigger] st.offs[i] && st.offs[i]
            + c_string(texts[i]).len() <= size && st.page.subrange(
            st.offs[i],
            st.offs[i] + c_string(texts[i]).len() as int,
        ) == c_string(texts[i]) by {
            let ci = c_string(texts[i]);
            if i < n - 1 {
                assert(st.offs[i] == st0.offs[i]);
                assert(st0.page.subrange(st0.offs[i], st0.offs[i] + ci.len()) == ci);
                assert(st.page.subrange(st.offs[i], st.offs[i] + ci.len()) =~= st0.page.subrange(
                    st0.offs[i],
                    st0.offs[i] + ci.len(),
                ));
            } else {
                assert(st.page.subrange(st.offs[i], st.offs[i] + ci.len()) =~= ci);
            }
        }
    }
}

proof fn lemma_pointers_len(base: u64, offs: Seq<int>)
    ensures
        pointers(base, offs).len() == 8 * offs.len(),
    decreases offs.len(),
{
    if offs.len() > 0 {
        lemma_pointers_len(base, offs.drop_last());
    }
}

proof fn lemma_pointer_at(base: u64, offs: Seq<int>, i: int)
    requires
        0 <= i < offs.len(),
    ensures
        pointers(base, offs).len() == 8 * offs.len(),
        pointers(base, offs).subrange(8 * i, 8 * i + 8) == le64((base + offs[i]) as u64),
    decreases offs.len(),
{
    lemma_pointers_len(base, offs);
    lemma_pointers_len(base, offs.drop_last());
    let p = pointers(base, offs.drop_last());
    if i < offs.len() - 1 {
        lemma_pointer_at(base, offs.drop_last(), i);
        assert(pointers(base, offs).subrange(8 * i, 8 * i + 8) =~= p.subrange(8 * i, 8 * i + 8));
    } else {
        assert(pointers(base, offs).subrange(8 * i, 8 * i + 8) =~= le64((base + offs[i]) as u64));
    }
}

/// Appends the addresses of strings.
fn push_pointers(table: &mut Vec<u8>, base: u64, offs: &Vec<usize>, from: usize, to: usize)
    requires
        from <= to <= offs@.len(),
        forall|i: int| 0 <= i < offs@.len() ==> base + #[trigger] offs@[i] <= u64::MAX,
    ensures
        final(table)@ == old(table)@ + pointers(
            base,
            as_ints(offs@).subrange(from as int, to as int),
        ),
{
    let ghost all = as_ints(offs@);
    let mut i: usize = from;
    while i < to
        invariant
            from <= i <= to <= offs@.len(),
            all == as_ints(offs@),
            forall|k: int| 0 <= k < offs@.len() ==> base + #[trigger] offs@[k] <= u64::MAX,
            table@ == old(table)@ + pointers(base, all.subrange(from as int, i as int)),
        decreases to - i,
    {
        assert(base + offs@[i as int] <= u64::MAX);
        push_u64(table, base + offs[i] as u64);
        proof {
            let next = all.subrange(from as int, i + 1);
            assert(next.drop_last() =~= all.subrange(from as int, i as int));
        }
        i = i + 1;
        assert(table@ =~= old(table)@ + pointers(base, all.subrange(from as int, i as int)));
    }
    assert(table@ =~= old(table)@ + pointers(base, all.subrange(from as int, to as int)));
}

/// Lays out the start-up stack of a process in its top stack page. Returns the
/// stack pointer and the contents of the page. From the stack pointer upwards
/// there are the number of arguments, their addresses, a zero, the addresses of
/// the environment, a zero, an empty auxiliary entry, and above them the bytes
/// of the strings.
#[verifier::spinoff_prover]
#[verifier::rlimit(60)]
pub fn setup_user_stack(
    page_user_base: u64,
    page_size: usize,
    args: &Vec<String>,
    envs: &Vec<String>,
) -> (r: Result<(u64, Vec<u8>), &'static str>)
    requires
        page_size >= 16 || args@.len() + envs@.len() > 0,
        page_user_base + page_size <= u64::MAX,
    ensures
        match r {
            Ok((sp, page)) => user_stack_s(
                page_user_base,
                page_size as int,
                texts(args@),
                texts(envs@),
            ) == Ok::<(u64, Seq<u8>), Seq<char>>((sp, page@)),
            Err(e) => user_stack_s(page_user_base, page_size as int, texts(args@), texts(envs@))
                == Err::<(u64, Seq<u8>), Seq<char>>(e@),
        },
{
    let ghost size = page_size as int;
    let ghost all = texts(args@) + texts(envs@);
    let argc: usize = args.len();
    let nenv: usize = envs.len();
    let mut page: Vec<u8> = zeroed(page_size);
    let mut offs: Vec<usize> = Vec::new();
    proof {
        assert(as_ints(offs@) =~= Seq::<int>::empty());
        assert(all.subrange(0, argc as int) =~= texts(args@));
        assert(all.subrange(argc as int, argc + nenv) =~= texts(envs@));
    }
    let off: usize = match place_strings(
        &mut page,
        page_size,
        args,
        &mut offs,
        Ghost(all),
        Ghost(0),
        Ghost(size),
    ) {
        Some(off) => off,
        None => {
            proof {
                lemma_strings_none(size, all, argc as nat, (argc + nenv) as nat);
            }
            return Err("argv/envp too large for initial stack page");
        },
    };
    let off: usize = match place_strings(
        &mut page,
        off,
        envs,
        &mut offs,
        Ghost(all),
        Ghost(argc as nat),
        Ghost(size),
    ) {
        Some(off) => off,
        None => return Err("argv/envp too large for initial stack page"),
    };
    proof {
        lemma_strings(size, all, (argc + nenv) as nat);
        assert forall|i: int| 0 <= i < offs@.len() implies page_user_base + #[trigger] offs@[i]
            <= u64::MAX by {
            assert(as_ints(offs@)[i] == offs@[i]);
        }
    }
    assert(argc + nenv <= page_size - off);
    assert(argc + nenv > 0 ==> off >= 256);
    let words: usize = argc + nenv + 5;
    let mut end: usize = off - off % 16;
    if words % 2 != 0 {
        end = end - 8;
    }
    if words > end / 8 {
        return Err("argv/envp table too large for initial stack page");
    }
    let at: usize = end - 8 * words;
    let mut table: Vec<u8> = Vec::new();
    push_u64(&mut table, argc as u64);
    push_pointers(&mut table, page_user_base, &offs, 0, argc);
    push_u64(&mut table, 0);
    push_pointers(&mut table, page_user_base, &offs, argc, argc + nenv);
    push_fill(&mut table, 0, 24);
    proof {
        let io = as_ints(offs@);
        assert(io.take(argc as int) =~= io.subrange(0, argc as int));
        assert(io.skip(argc as int) =~= io.subrange(argc as int, argc + nenv));
        assert(table@ =~= table_s(page_user_base, io, argc as int));
        lemma_pointers_len(page_user_base, io.take(argc as int));
        lemma_pointers_len(page_user_base, io.skip(argc as int));
    }
    splice(&mut page, at, table.as_slice());
    Ok((page_user_base + at as u64, page))
}

/// The stack pointer is a multiple of 16 if the page begins at one.
pub proof fn law_stack_is_aligned(
    base: u64,
    size: int,
    args: Seq<Seq<char>>,
    envs: Seq<Seq<char>>,
)
    requires
        256 <= size,
        base + size <= u64::MAX,
        base % 16 == 0,
        user_stack_s(base, size, args, envs) is Ok,
    ensures
        user_stack_s(base, size, args, envs)->Ok_0.0 % 16 == 0,
{
    let n = args.len() + envs.len();
    lemma_strings(size, args + envs, n);
    let st = strings_s(size, args + envs, n)->Some_0;
    lemma_aligned(base as int, st.off, (n + 5) as int);
}

proof fn lemma_aligned(base: int, off: int, words: int)
    requires
        base % 16 == 0,
    ensures
        (base + table_end(off, words) - 8 * words) % 16 == 0,
{
    let w = words / 2;
    let b = base / 16;
    let q = off / 16;
    if words % 2 == 0 {
        assert(base + table_end(off, words) - 8 * words == 16 * (b + q - w));
    } else {
        assert(base + table_end(off, words) - 8 * words == 16 * (b + q - w - 1));
    }
}

/// What was written into a page is there.
proof fn lemma_patch_inside(page: Seq<u8>, off: int, t: Seq<u8>, a: int, b: int)
    requires
        0 <= off,
        off + t.len() <= page.len(),
        0 <= a <= b <= t.len(),
    ensures
        patch(page, off, t).len() == page.len(),
        patch(page, off, t).subrange(off + a, off + b) == t.subrange(a, b),
{
    assert(patch(page, off, t).subrange(off + a, off + b) =~= t.subrange(a, b));
}

/// What lies above is as it was.
proof fn lemma_patch_above(page: Seq<u8>, off: int, t: Seq<u8>, a: int, b: int)
    requires
        0 <= off,
        off + t.len() <= a <= b <= page.len(),
    ensures
        patch(page, off, t).subrange(a, b) == page.subrange(a, b),
{
    assert(patch(page, off, t).subrange(a, b) =~= page.subrange(a, b));
}

/// Where the parts of the table are.
proof fn lemma_table(base: u64, offs: Seq<int>, argc: int, i: int)
    requires
        0 <= argc <= offs.len(),
        0 <= i < offs.len(),
    ensures
        ({
            let t = table_s(base, offs, argc);
            let slot = 8 + 8 * i + (if i < argc {
                0int
            } else {
                8int
            });
            &&& t.len() == 8 * (offs.len() + 5)
            &&& t.subrange(0, 8) == le64(argc as u64)
            &&& t.subrange(8 + 8 * argc, 16 + 8 * argc) == le64(0)
            &&& t.subrange(slot, slot + 8) == le64((base + offs[i]) as u64)
        }),
{
    let t = table_s(base, offs, argc);
    let pa = pointers(base, offs.take(argc));
    let pe = pointers(base, offs.skip(argc));
    lemma_pointers_len(base, offs.take(argc));
    lemma_pointers_len(base, offs.skip(argc));
    let head = le64(argc as u64);
    assert(head.len() == 8 && le64(0).len() == 8);
    assert(t.subrange(0, 8) =~= head);
    assert(t.subrange(8 + 8 * argc, 16 + 8 * argc) =~= le64(0));
    if i < argc {
        lemma_pointer_at(base, offs.take(argc), i);
        assert(t.subrange(8 + 8 * i, 16 + 8 * i) =~= pa.subrange(8 * i, 8 * i + 8));
    } else {
        let k = i - argc;
        lemma_pointer_at(base, offs.skip(argc), k);
        assert(t.subrange(16 + 8 * i, 24 + 8 * i) =~= pe.subrange(8 * k, 8 * k + 8));
    }
}

/// A page with the table at `top` and a string above it.
proof fn lemma_page(
    base: u64,
    page0: Seq<u8>,
    top: int,
    offs: Seq<int>,
    argc: int,
    i: int,
    c: Seq<u8>,
)
    requires
        0 <= argc <= offs.len() <= u64::MAX,
        0 <= i < offs.len(),
        0 <= top,
        top + 8 * (offs.len() + 5) <= offs[i],
        offs[i] + c.len() <= page0.len(),
        base + offs[i] <= u64::MAX,
        page0.subrange(offs[i], offs[i] + c.len() as int) == c,
    ensures
        ({
            let page = patch(page0, top, table_s(base, offs, argc));
            let slot = top + 8 + 8 * i + (if i < argc {
                0int
            } else {
                8int
            });
            &&& page.len() == page0.len()
            &&& get64(page, top) == argc
            &&& get64(page, top + 8 + 8 * argc) == 0
            &&& get64(page, slot) == base + offs[i]
            &&& page.subrange(offs[i], offs[i] + c.len() as int) == c
        }),
{
    let t = table_s(base, offs, argc);
    let page = patch(page0, top, t);
    let slot = 8 + 8 * i + (if i < argc {
        0int
    } else {
        8int
    });
    lemma_table(base, offs, argc, i);
    lemma_patch_inside(page0, top, t, 0, 8);
    lemma_patch_inside(page0, top, t, 8 + 8 * argc, 16 + 8 * argc);
    lemma_patch_inside(page0, top, t, slot, slot + 8);
    lemma_patch_above(page0, top, t, offs[i], offs[i] + c.len() as int);
    assert(page.len() == page0.len());
    assert(get64(page, top) == argc) by {
        lemma_get64(page, top, argc as u64);
    }
    assert(get64(page, top + 8 + 8 * argc) == 0) by {
        lemma_get64(page, top + 8 + 8 * argc, 0);
    }
    assert(get64(page, top + slot) == base + offs[i]) by {
        lemma_get64(page, top + slot, (base + offs[i]) as u64);
    }
}

/// The stack pointer points at the number of arguments, and above it stand the
/// addresses of the arguments and then, behind a zero, of the environment: at
/// each of these addresses is its string with a zero byte behind it.
pub proof fn law_stack_holds_the_arguments(
    base: u64,
    size: int,
    args: Seq<Seq<char>>,
    envs: Seq<Seq<char>>,
    i: int,
)
    requires
        256 <= size,
        base + size <= u64::MAX,
        user_stack_s(base, size, args, envs) is Ok,
        0 <= i < args.len() + envs.len(),
    ensures
        ({
            let (sp, page) = user_stack_s(base, size, args, envs)->Ok_0;
            let top = sp - base;
            let slot = top + 8 + 8 * i + (if i < args.len() {
                0int
            } else {
                8int
            });
            let at = get64(page, slot) - base;
            let c = c_string((args + envs)[i]);
            &&& base <= sp
            &&& page.len() == size
            &&& get64(page, top) == args.len()
            &&& get64(page, top + 8 + 8 * args.len()) == 0
            &&& 0 <= at
            &&& at + c.len() <= size
            &&& page.subrange(at, at + c.len()) == c
        }),
{
    let n = args.len() + envs.len();
    let all = args + envs;
    lemma_strings(size, all, n);
    let st = strings_s(size, all, n)->Some_0;
    let words = n + 5;
    let end = table_end(st.off, words as int);
    let top = end - 8 * words;
    let argc = args.len() as int;
    let c = c_string(all[i]);
    assert(st.offs[i] >= st.off);
    lemma_page(base, st.page, top, st.offs, argc, i, c);
}

} // verus!
