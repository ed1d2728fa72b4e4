//! What replacing the contents of a NextFS file leaves: the file holds the new
//! contents, and no other file changes.

use crate::fs::data_laws::{
    content, evolved, file_byte, file_sound, in_use, lemma_inode_write_keeps, lemma_meta_irrelevant,
    lemma_read_span, lemma_same_file, lemma_same_read, lemma_write_span,
    lemma_write_span_fits, max_blocks, owns, ptr, same_file,
};
use crate::bytes::{get32, zeros};
use crate::fs::laws::{law_inode_reads_back, lemma_patch, volume_ok};
use crate::fs::nextfs::{
    block_ptr, blocks_for, byte_at, file_block, first_bad, free_all, free_direct_s, indirect_end,
    lemma_first_bad, min_of, ptrs_of, put_block, read_file_s, read_inode_data_s, read_inode_s,
    read_span, truncate_inode_s, truncate_s, without_ptrs, write_file_s, write_inode_data_s, write_span_s,
    FsError, FsView,
};
use crate::fs::ondisk::{inode_shaped, InodeView, SuperblockView};
use vstd::prelude::*;

verus! {

/// `v1` is `v` with the blocks in `freed` given back.
pub open spec fn gave_back(v: FsView, v1: FsView, freed: spec_fn(int) -> bool) -> bool {
    &&& v1.disk == v.disk
    &&& v1.used == v.used
    &&& v1.sb == (SuperblockView { free_blocks: v1.sb.free_blocks, ..v.sb })
    &&& v1.free.len() == v.free.len()
    &&& forall|c: int|
        0 <= c < v.free.len() ==> (#[trigger] v1.free[c] <==> v.free[c] || freed(c))
}

/// Giving back a list of blocks.
pub proof fn lemma_free_all(v: FsView, ptrs: Seq<u32>)
    ensures
        gave_back(v, free_all(v, ptrs), |c: int| c != 0 && listed(ptrs, c)),
    decreases ptrs.len(),
{
    let f = |c: int| c != 0 && listed(ptrs, c);
    if ptrs.len() > 0 {
        let head = ptrs.drop_last();
        lemma_free_all(v, head);
        let v1 = free_all(v, head);
        let v2 = free_all(v, ptrs);
        assert forall|c: int| 0 <= c < v.free.len() implies (#[trigger] v2.free[c] <==> v.free[c]
            || f(c)) by {
            assert(v1.free[c] <==> v.free[c] || (c != 0 && listed(head, c)));
            if listed(head, c) {
                let k = choose|k: int| 0 <= k < head.len() && #[trigger] head[k] == c;
                assert(ptrs[k] == c);
            }
            if listed(ptrs, c) {
                let k = choose|k: int| 0 <= k < ptrs.len() && #[trigger] ptrs[k] == c;
                if k < head.len() {
                    assert(head[k] == c);
                }
            }
            if ptrs.last() == c {
                assert(ptrs[ptrs.len() - 1] == c);
            }
        }
    }
}

/// Whether a block is in a list.
pub open spec fn listed(ptrs: Seq<u32>, c: int) -> bool {
    exists|k: int| 0 <= k < ptrs.len() && #[trigger] ptrs[k] == c
}

/// Cutting a file to at most nine blocks, or letting it grow, leaves it sound, frees
/// nothing but its own blocks and writes nothing to the disk.
#[verifier::spinoff_prover]
#[verifier::rlimit(60)]
pub proof fn lemma_truncate(v: FsView, i: InodeView, size: u64)
    requires
        volume_ok(v),
        file_sound(v, i),
        inode_shaped(i),
        size >= i.size || size <= 9 * 512,
    ensures
        ({
            let (r, v1, i1) = truncate_inode_s(v, i, size);
            &&& r is Ok
            &&& volume_ok(v1)
            &&& file_sound(v1, i1)
            &&& inode_shaped(i1)
            &&& v1.disk == v.disk
            &&& v1.used == v.used
            &&& v1.sb == (SuperblockView { free_blocks: v1.sb.free_blocks, ..v.sb })
            &&& i1.size == size
            &&& i1.inode_type == i.inode_type
            &&& forall|c: int| in_use(v, c) && !owns(v, i, c) ==> #[trigger] in_use(v1, c)
            &&& forall|c: int| #[trigger] owns(v1, i1, c) ==> owns(v, i, c)
        }),
{
    let (r, v1, i1) = truncate_inode_s(v, i, size);
    if size >= i.size {
        lemma_meta_irrelevant(v, i, i1);
    } else {
        let had = blocks_for(i.size);
        let keep = blocks_for(size);
        let to = if keep < min_of(9, had) {
            min_of(9, had)
        } else {
            keep
        };
        let (va, ia) = free_direct_s(v, i, keep, min_of(9, had));
        let direct = i.direct.subrange(keep, to);
        lemma_free_all(v, direct);
        // Pointers that stay behind.
        assert forall|a: int| 0 <= a < 9 implies #[trigger] ia.direct[a] == (if keep <= a < to {
            0u32
        } else {
            i.direct[a]
        }) by {}
        assert forall|c: int| c != 0 && #[trigger] listed(direct, c) implies owns(v, i, c)
            && forall|a: int|
            0 <= a < max_blocks() && !(keep <= a < to) ==> #[trigger] ptr(v.disk, i, a) != c by {
            let k = choose|k: int| 0 <= k < direct.len() && #[trigger] direct[k] == c;
            assert(ptr(v.disk, i, k + keep) == c);
        }
        if i.indirect == 0 {
            lemma_emptied(v, i, v1, i1, keep, to, |c: int| c != 0 && listed(direct, c));
        } else {
            let b = v.disk[i.indirect as int];
            let end = indirect_end(had);
            let ptrs = ptrs_of(b).subrange(0, end);
            lemma_free_all(va, ptrs);
            let vb = free_all(va, ptrs);
            let f = |c: int|
                (c != 0 && listed(direct, c)) || (c != 0 && listed(ptrs, c)) || c == i.indirect;
            assert forall|c: int| c != 0 && #[trigger] listed(ptrs, c) implies owns(v, i, c)
                && forall|a: int| 0 <= a < 9 ==> #[trigger] ptr(v.disk, i, a) != c by {
                let k = choose|k: int| 0 <= k < ptrs.len() && #[trigger] ptrs[k] == c;
                assert(ptr(v.disk, i, k + 9) == c);
            }
            assert(gave_back(v, v1, f)) by {
                assert forall|c: int| 0 <= c < v.free.len() implies (#[trigger] v1.free[c]
                    <==> v.free[c] || f(c)) by {
                    assert(va.free[c] <==> v.free[c] || (c != 0 && listed(direct, c)));
                    assert(vb.free[c] <==> va.free[c] || (c != 0 && listed(ptrs, c)));
                }
            }
            lemma_emptied(v, i, v1, i1, keep, to, f);
        }
    }
}

/// A file keeps its pointers to direct blocks but for those in `[from, to)`, and the
/// blocks that were given back are others of its own.
#[verifier::spinoff_prover]
#[verifier::rlimit(60)]
proof fn lemma_emptied(
    v: FsView,
    i: InodeView,
    v1: FsView,
    i1: InodeView,
    from: int,
    to: int,
    freed: spec_fn(int) -> bool,
)
    requires
        volume_ok(v),
        file_sound(v, i),
        gave_back(v, v1, freed),
        0 <= from <= to <= 9,
        i1.indirect == 0,
        i1.direct.len() == 9,
        forall|a: int|
            0 <= a < 9 ==> #[trigger] i1.direct[a] == (if from <= a < to {
                0u32
            } else {
                i.direct[a]
            }),
        forall|c: int| #[trigger] freed(c) ==> owns(v, i, c),
        forall|c: int, a: int|
            0 <= a < 9 && !(from <= a < to) && #[trigger] freed(c) && c != 0 ==> #[trigger] ptr(
                v.disk,
                i,
                a,
            ) != c,
    ensures
        volume_ok(v1),
        file_sound(v1, i1),
        forall|c: int| in_use(v, c) && !owns(v, i, c) ==> #[trigger] in_use(v1, c),
        forall|c: int| #[trigger] owns(v1, i1, c) ==> owns(v, i, c),
{
    assert forall|a: int| 0 <= a < max_blocks() implies #[trigger] ptr(v1.disk, i1, a) == (if a < 9
        && !(from <= a < to) {
        ptr(v.disk, i, a)
    } else {
        0
    }) by {
        if a < 9 {
            assert(i1.direct[a] == (if from <= a < to {
                0u32
            } else {
                i.direct[a]
            }));
        }
    }
    assert forall|c: int| #[trigger] owns(v1, i1, c) implies owns(v, i, c) by {
        let a = choose|a: int|
            0 <= a < max_blocks() && #[trigger] ptr(v1.disk, i1, a) != 0 && c == ptr(
                v1.disk,
                i1,
                a,
            );
        assert(ptr(v.disk, i, a) == c);
    }
    assert(file_sound(v1, i1)) by {
        assert forall|a: int| 0 <= a < max_blocks() && #[trigger] ptr(v1.disk, i1, a)
            != 0 implies v1.sb.data_start <= ptr(v1.disk, i1, a) < v1.sb.total_blocks
            && !v1.free[ptr(v1.disk, i1, a) as int] && ptr(v1.disk, i1, a) != i1.indirect by {
            let p = ptr(v.disk, i, a);
            assert(!v.free[p as int]);
            assert(!freed(p as int));
        }
        assert forall|a: int, b: int|
            0 <= a < max_blocks() && 0 <= b < max_blocks() && a != b && #[trigger] ptr(
                v1.disk,
                i1,
                a,
            ) != 0 implies ptr(v1.disk, i1, a) != #[trigger] ptr(v1.disk, i1, b) by {
            assert(ptr(v.disk, i, a) != ptr(v.disk, i, b));
        }
    }
    assert forall|c: int| in_use(v, c) && !owns(v, i, c) implies #[trigger] in_use(v1, c) by {
        assert(!freed(c));
    }
}

/// Clearing pointers of an indirect block leaves the others.
proof fn lemma_without_ptrs(b: Seq<u8>, from: int, to: int, j: int)
    requires
        b.len() == 512,
        0 <= from <= to <= 128,
        0 <= j < 128,
    ensures
        without_ptrs(b, from, to).len() == 512,
        get32(without_ptrs(b, from, to), 4 * j) == (if from <= j < to {
            0u32
        } else {
            get32(b, 4 * j)
        }),
{
    lemma_patch(b, 4 * from, zeros((4 * (to - from)) as nat));
    let p = without_ptrs(b, from, to);
    if from <= j < to {
        assert(p[4 * j] == 0 && p[4 * j + 1] == 0 && p[4 * j + 2] == 0 && p[4 * j + 3] == 0);
    } else {
        assert(p[4 * j] == b[4 * j] && p[4 * j + 1] == b[4 * j + 1] && p[4 * j + 2] == b[4 * j + 2]
            && p[4 * j + 3] == b[4 * j + 3]);
    }
}

/// What cutting a file to more than nine blocks does to its pointers and to the disk.
#[verifier::spinoff_prover]
#[verifier::rlimit(60)]
proof fn lemma_cut_pointers(v: FsView, i: InodeView, size: u64)
    requires
        volume_ok(v),
        file_sound(v, i),
        9 * 512 < size < i.size,
    ensures
        ({
            let (r, v1, i1) = truncate_inode_s(v, i, size);
            &&& r is Ok
            &&& i1 == (InodeView { size, ..i })
            &&& volume_ok(v1)
            &&& v1.used == v.used
            &&& v1.sb == (SuperblockView { free_blocks: v1.sb.free_blocks, ..v.sb })
            &&& v1.disk.len() == v.disk.len()
            &&& v1.free.len() == v.free.len()
            &&& forall|c: int|
                0 <= c < v.disk.len() && (i.indirect == 0 || c != i.indirect)
                    ==> #[trigger] v1.disk[c] == v.disk[c]
            &&& forall|a: int|
                0 <= a < max_blocks() ==> #[trigger] ptr(v1.disk, i1, a) == (if blocks_for(size)
                    <= a < blocks_for(i.size) {
                    0
                } else {
                    ptr(v.disk, i, a)
                })
            &&& forall|c: int|
                0 <= c < v.free.len() && #[trigger] v1.free[c] && !v.free[c] ==> exists|a: int|
                    blocks_for(size) <= a < blocks_for(i.size) && a < max_blocks()
                        && #[trigger] ptr(v.disk, i, a) == c && c != 0
            &&& forall|c: int| 0 <= c < v.free.len() && v.free[c] ==> #[trigger] v1.free[c]
        }),
{
    let (r, v1, i1) = truncate_inode_s(v, i, size);
    let keep = blocks_for(size);
    let had = blocks_for(i.size);
    if i.indirect != 0 {
        let b = v.disk[i.indirect as int];
        let to = min_of(128, had - 9);
        if keep - 9 < to {
            let from = keep - 9;
            let v2 = put_block(v, i.indirect as int, without_ptrs(b, from, to)).1;
            let ptrs = ptrs_of(b).subrange(from, to);
            lemma_free_all(v2, ptrs);
            assert forall|a: int| 0 <= a < max_blocks() implies #[trigger] ptr(v1.disk, i1, a) == (
            if keep <= a < had {
                0
            } else {
                ptr(v.disk, i, a)
            }) by {
                if a >= 9 {
                    lemma_without_ptrs(b, from, to, a - 9);
                }
            }
            assert forall|c: int|
                0 <= c < v.free.len() && #[trigger] v1.free[c] && !v.free[c] implies exists|a: int|
                keep <= a < had && a < max_blocks() && #[trigger] ptr(v.disk, i, a) == c && c
                    != 0 by {
                assert(c != 0 && listed(ptrs, c));
                let k = choose|k: int| 0 <= k < ptrs.len() && #[trigger] ptrs[k] == c;
                assert(ptr(v.disk, i, k + from + 9) == c);
            }
            lemma_without_ptrs(b, from, to, 0);
        }
    }
}

/// Cutting a file to more than nine blocks leaves it sound, frees nothing but its own
/// blocks, and writes to none but its block of pointers.
#[verifier::spinoff_prover]
#[verifier::rlimit(60)]
pub proof fn lemma_cut(v: FsView, i: InodeView, size: u64)
    requires
        volume_ok(v),
        file_sound(v, i),
        inode_shaped(i),
        9 * 512 < size < i.size,
    ensures
        ({
            let (r, v1, i1) = truncate_inode_s(v, i, size);
            &&& r is Ok
            &&& volume_ok(v1)
            &&& file_sound(v1, i1)
            &&& inode_shaped(i1)
            &&& v1.disk.len() == v.disk.len()
            &&& v1.used == v.used
            &&& v1.sb == (SuperblockView { free_blocks: v1.sb.free_blocks, ..v.sb })
            &&& i1.size == size
            &&& i1.inode_type == i.inode_type
            &&& forall|c: int| in_use(v, c) && !owns(v, i, c) ==> #[trigger] in_use(v1, c)
            &&& forall|c: int| #[trigger] owns(v1, i1, c) ==> owns(v, i, c)
            &&& forall|c: int|
                0 <= c < v.disk.len() && !owns(v, i, c) ==> #[trigger] v1.disk[c] == v.disk[c]
            &&& forall|a: int|
                0 <= a < max_blocks() && 512 * a < size ==> #[trigger] content(v1.disk, i1, a)
                    == content(v.disk, i, a)
        }),
{
    lemma_cut_pointers(v, i, size);
    let (r, v1, i1) = truncate_inode_s(v, i, size);
    let keep = blocks_for(size);
    let had = blocks_for(i.size);
    assert forall|c: int| #[trigger] owns(v1, i1, c) implies owns(v, i, c) by {
        if !(i.indirect != 0 && c == i.indirect) {
            let a = choose|a: int|
                0 <= a < max_blocks() && #[trigger] ptr(v1.disk, i1, a) != 0 && c == ptr(
                    v1.disk,
                    i1,
                    a,
                );
            assert(ptr(v.disk, i, a) == c);
        }
    }
    assert(file_sound(v1, i1)) by {
        if i.indirect != 0 {
            let c = i.indirect as int;
            if v1.free[c] {
                let a = choose|a: int|
                    keep <= a < had && a < max_blocks() && #[trigger] ptr(v.disk, i, a) == c && c
                        != 0;
                assert(ptr(v.disk, i, a) != i.indirect);
            }
        }
        assert forall|a: int| 0 <= a < max_blocks() && #[trigger] ptr(v1.disk, i1, a)
            != 0 implies v1.sb.data_start <= ptr(v1.disk, i1, a) < v1.sb.total_blocks
            && !v1.free[ptr(v1.disk, i1, a) as int] && ptr(v1.disk, i1, a) != i1.indirect by {
            let p = ptr(v.disk, i, a) as int;
            assert(!v.free[p]);
            if v1.free[p] {
                let b = choose|b: int|
                    keep <= b < had && b < max_blocks() && #[trigger] ptr(v.disk, i, b) == p && p
                        != 0;
                assert(ptr(v.disk, i, a) != ptr(v.disk, i, b));
            }
        }
        assert forall|a: int, b: int|
            0 <= a < max_blocks() && 0 <= b < max_blocks() && a != b && #[trigger] ptr(
                v1.disk,
                i1,
                a,
            ) != 0 implies ptr(v1.disk, i1, a) != #[trigger] ptr(v1.disk, i1, b) by {
            assert(ptr(v.disk, i, a) != ptr(v.disk, i, b));
        }
    }
    assert forall|c: int| in_use(v, c) && !owns(v, i, c) implies #[trigger] in_use(v1, c) by {
        if v.sb.data_start <= c < v.sb.total_blocks && v1.free[c] {
            let a = choose|a: int|
                keep <= a < had && a < max_blocks() && #[trigger] ptr(v.disk, i, a) == c && c != 0;
            assert(owns(v, i, c));
        }
    }
    assert forall|a: int| 0 <= a < max_blocks() && 512 * a < size implies #[trigger] content(
        v1.disk,
        i1,
        a,
    ) == content(v.disk, i, a) by {
        assert(a < keep);
        assert(ptr(v1.disk, i1, a) == ptr(v.disk, i, a));
        if ptr(v.disk, i, a) != 0 {
            assert(ptr(v.disk, i, a) != i.indirect);
        }
    }
}

/// The contents of a file that were replaced are the new contents.
#[verifier::spinoff_prover]
#[verifier::rlimit(60)]
pub proof fn law_write_file_then_read_file(v: FsView, n: u32, data: Seq<u8>, now: u32)
    requires
        volume_ok(v),
        read_inode_s(v, n) matches Ok(i) ==> inode_shaped(i) && file_sound(v, i),
        write_file_s(v, n, data, now).0 is Ok,
    ensures
        read_file_s(write_file_s(v, n, data, now).1, n) == Ok::<Seq<u8>, FsError>(data),
{
    let i = read_inode_s(v, n)->Ok_0;
    lemma_truncate(v, i, 0);
    let (rt, vt, it) = truncate_inode_s(v, i, 0);
    let (rs, vs, is_) = write_span_s(vt, it, 0, data);
    lemma_write_span_fits(vt, it, 0, data);
    lemma_write_span(vt, it, 0, data);
    let (rw, vw, iw) = write_inode_data_s(vt, it, 0, data, now);
    lemma_meta_irrelevant(vw, is_, iw);
    lemma_inode_write_keeps(vw, n, iw, iw);
    law_inode_reads_back(vw, n, iw, n);
    let v2 = write_file_s(v, n, data, now).1;
    assert(iw.size == data.len());
    lemma_read_span(v2, iw, 0, data.len() as int);
    let have = Seq::new(data.len(), |k: int| file_byte(v2.disk, iw, 0 + k));
    assert forall|k: int| 0 <= k < data.len() implies #[trigger] have[k] == data[k] by {
        assert(content(v2.disk, iw, k / 512) == content(vw.disk, iw, k / 512));
        assert(content(vw.disk, iw, k / 512) == content(vw.disk, is_, k / 512));
        assert(file_byte(vs.disk, is_, k) == data[k]);
    }
    assert(have =~= data);
}

/// Reading a part of a file gives that part of the whole: as many of the bytes from
/// `offset` on as there are, at most `len`.
pub proof fn law_part_of_a_file(v: FsView, n: u32, offset: u64, len: nat, data: Seq<u8>)
    requires
        read_file_s(v, n) == Ok::<Seq<u8>, FsError>(data),
    ensures
        read_inode_data_s(v, n, offset, len) == Ok::<Seq<u8>, FsError>(
            if offset >= data.len() {
                Seq::empty()
            } else if len < data.len() - offset {
                data.subrange(offset as int, offset + len)
            } else {
                data.skip(offset as int)
            },
        ),
{
    let i = read_inode_s(v, n)->Ok_0;
    lemma_all_good(v.disk, i, 0, i.size as int);
    if offset < i.size {
        let m: int = if len < i.size - offset {
            len as int
        } else {
            i.size - offset
        };
        assert forall|k: int| 0 <= k < m implies (#[trigger] byte_at(
            v.disk,
            i,
            offset + k,
        )) is Ok by {
            assert(byte_at(v.disk, i, 0 + (offset + k)) is Ok);
        }
        lemma_first_bad(v.disk, i, offset as int, m, m);
        assert(read_span(v.disk, i, offset as int, m)->Ok_0 =~= data.subrange(
            offset as int,
            offset + m,
        ));
    }
}

/// A file that was cut holds what it held up to its new end.
#[verifier::spinoff_prover]
#[verifier::rlimit(60)]
pub proof fn law_truncate_then_read(v: FsView, n: u32, size: u64, data: Seq<u8>)
    requires
        volume_ok(v),
        read_inode_s(v, n) matches Ok(i) ==> inode_shaped(i) && file_sound(v, i),
        read_file_s(v, n) == Ok::<Seq<u8>, FsError>(data),
        size <= data.len(),
        truncate_s(v, n, size).0 is Ok,
    ensures
        read_file_s(truncate_s(v, n, size).1, n) == Ok::<Seq<u8>, FsError>(data.take(size as int)),
{
    let i = read_inode_s(v, n)->Ok_0;
    let (rt, vt, it) = truncate_inode_s(v, i, size);
    let v1 = truncate_s(v, n, size).1;
    assert(i.size == data.len());
    if 9 * 512 < size < i.size {
        lemma_cut(v, i, size);
    } else {
        lemma_truncate(v, i, size);
    }
    lemma_inode_write_keeps(vt, n, it, it);
    law_inode_reads_back(vt, n, it, n);
    assert forall|a: int| 0 <= a < max_blocks() && 512 * a < size implies #[trigger] content(
        v1.disk,
        it,
        a,
    ) == content(v.disk, i, a) by {
        if !(9 * 512 < size < i.size) {
            lemma_kept_block(v, i, size, a);
        }
        assert(content(vt.disk, it, a) == content(v.disk, i, a));
        assert(content(v1.disk, it, a) == content(vt.disk, it, a));
    }
    assert(i.indirect == 0 ==> it.indirect == 0);
    lemma_bytes_kept(v, i, v1, it, size as int);
    let have = Seq::new(size as nat, |k: int| byte_at(v1.disk, it, 0 + k)->Ok_0);
    assert forall|k: int| 0 <= k < size implies #[trigger] have[k] == data[k] by {
        assert(byte_at(v1.disk, it, 0 + k) == byte_at(v.disk, i, 0 + k));
        assert(data[k] == byte_at(v.disk, i, 0 + k)->Ok_0);
    }
    assert(have =~= data.take(size as int));
}

/// Two files of which the blocks before an end are equal can be read alike up to it.
proof fn lemma_bytes_kept(v: FsView, i: InodeView, v1: FsView, i1: InodeView, size: int)
    requires
        volume_ok(v),
        file_sound(v, i),
        volume_ok(v1),
        file_sound(v1, i1),
        i.indirect == 0 ==> i1.indirect == 0,
        forall|a: int|
            0 <= a < max_blocks() && 512 * a < size ==> #[trigger] content(v1.disk, i1, a)
                == content(v.disk, i, a),
        0 <= size <= i.size,
        first_bad(v.disk, i, 0, i.size as int) >= i.size,
    ensures
        first_bad(v1.disk, i1, 0, size) == size,
        forall|k: int|
            0 <= k < size ==> #[trigger] byte_at(v1.disk, i1, 0 + k) == byte_at(v.disk, i, 0 + k),
{
    lemma_all_good(v.disk, i, 0, i.size as int);
    assert forall|k: int| 0 <= k < size implies #[trigger] byte_at(v1.disk, i1, 0 + k) == byte_at(
        v.disk,
        i,
        0 + k,
    ) by {
        assert(byte_at(v.disk, i, 0 + k) is Ok);
        let a = file_block(k);
        assert(0 <= a <= k / 512);
        if a < max_blocks() {
            assert(512 * a < size);
            assert(content(v1.disk, i1, a) == content(v.disk, i, a));
            lemma_byte_in(v, i, k);
            lemma_byte_in(v1, i1, k);
        } else {
            assert(i.indirect == 0);
        }
    }
    assert forall|k: int| 0 <= k < size implies (#[trigger] byte_at(v1.disk, i1, 0 + k)) is Ok by {
        assert(byte_at(v.disk, i, 0 + k) is Ok);
    }
    lemma_first_bad(v1.disk, i1, 0, size, size);
}

/// Where all bytes can be read, each can.
proof fn lemma_all_good(disk: Seq<Seq<u8>>, i: InodeView, pos: int, m: int)
    requires
        first_bad(disk, i, pos, m) >= m,
    ensures
        forall|k: int| 0 <= k < m ==> (#[trigger] byte_at(disk, i, pos + k)) is Ok,
    decreases m,
{
    if m > 0 {
        lemma_all_good(disk, i, pos + 1, m - 1);
        assert forall|k: int| 0 <= k < m implies (#[trigger] byte_at(disk, i, pos + k)) is Ok by {
            if k > 0 {
                assert(byte_at(disk, i, pos + 1 + (k - 1)) is Ok);
            }
        }
    }
}

/// A byte of a file is one of the block that holds it.
proof fn lemma_byte_in(v: FsView, i: InodeView, p: int)
    requires
        volume_ok(v),
        file_sound(v, i),
        0 <= p,
        file_block(p) < max_blocks(),
    ensures
        byte_at(v.disk, i, p) == Ok::<u8, FsError>(content(v.disk, i, file_block(p))[p % 512]),
{
    let q = ptr(v.disk, i, file_block(p));
    if q != 0 {
        assert(v.disk[q as int].len() == 512);
    }
}

/// Cutting a file leaves its first blocks where they are.
proof fn lemma_kept_block(v: FsView, i: InodeView, size: u64, a: int)
    requires
        inode_shaped(i),
        0 <= a < max_blocks(),
        512 * a < size,
        size <= i.size,
        size == i.size || size <= 9 * 512,
    ensures
        ({
            let (r, v1, i1) = truncate_inode_s(v, i, size);
            r is Ok ==> content(v1.disk, i1, a) == content(v.disk, i, a)
        }),
{
    let (r, v1, i1) = truncate_inode_s(v, i, size);
    if size < i.size {
        let keep = blocks_for(size);
        let had = blocks_for(i.size);
        let (va, ia) = free_direct_s(v, i, keep, min_of(9, had));
        assert(a < keep);
        assert(ia.direct[a] == i.direct[a]);
        lemma_free_all(v, i.direct.subrange(keep, min_of(9, had)));
        if i.indirect != 0 && r is Ok {
            let b = va.disk[i.indirect as int];
            lemma_free_all(va, ptrs_of(b).subrange(0, indirect_end(had)));
        }
        if r is Ok {
            assert(i1.direct[a] == i.direct[a]);
            assert(v1.disk == v.disk);
            assert(ptr(v1.disk, i1, a) == ptr(v.disk, i, a));
        }
    } else {
        assert(ptr(v1.disk, i1, a) == ptr(v.disk, i, a));
    }
}

/// No block belongs to both files.
pub open spec fn disjoint(v: FsView, i: InodeView, j: InodeView) -> bool {
    forall|c: int| #[trigger] owns(v, i, c) ==> !owns(v, j, c)
}

/// A file whose blocks are in use in both states and hold the same is sound in
/// the later state if it was in the earlier.
pub proof fn lemma_still_sound(v: FsView, v1: FsView, j: InodeView)
    requires
        volume_ok(v),
        file_sound(v, j),
        same_file(v, v1, j),
        v1.sb.data_start == v.sb.data_start,
        v1.sb.total_blocks == v.sb.total_blocks,
        forall|c: int| #[trigger] owns(v, j, c) ==> in_use(v1, c),
    ensures
        file_sound(v1, j),
        forall|c: int| #[trigger] owns(v1, j, c) <==> owns(v, j, c),
{
    assert forall|a: int| 0 <= a < max_blocks() implies #[trigger] ptr(v1.disk, j, a) == ptr(
        v.disk,
        j,
        a,
    ) by {
        assert(block_ptr(v1.disk, j, a) == block_ptr(v.disk, j, a));
    }
    assert forall|c: int| #[trigger] owns(v1, j, c) <==> owns(v, j, c) by {
        if owns(v, j, c) && !(j.indirect != 0 && c == j.indirect) {
            let a = choose|a: int|
                0 <= a < max_blocks() && #[trigger] ptr(v.disk, j, a) != 0 && c == ptr(
                    v.disk,
                    j,
                    a,
                );
            assert(ptr(v1.disk, j, a) == c);
        }
        if owns(v1, j, c) && !(j.indirect != 0 && c == j.indirect) {
            let a = choose|a: int|
                0 <= a < max_blocks() && #[trigger] ptr(v1.disk, j, a) != 0 && c == ptr(
                    v1.disk,
                    j,
                    a,
                );
            assert(ptr(v.disk, j, a) == c);
        }
    }
    if j.indirect != 0 {
        assert(owns(v, j, j.indirect as int));
    }
    assert forall|a: int| 0 <= a < max_blocks() && #[trigger] ptr(v1.disk, j, a)
        != 0 implies v1.sb.data_start <= ptr(v1.disk, j, a) < v1.sb.total_blocks
        && !v1.free[ptr(v1.disk, j, a) as int] && ptr(v1.disk, j, a) != j.indirect by {
        assert(ptr(v.disk, j, a) != 0);
        assert(owns(v, j, ptr(v.disk, j, a) as int));
    }
    assert forall|a: int, b: int|
        0 <= a < max_blocks() && 0 <= b < max_blocks() && a != b && #[trigger] ptr(v1.disk, j, a)
            != 0 implies ptr(v1.disk, j, a) != #[trigger] ptr(v1.disk, j, b) by {
        assert(ptr(v.disk, j, a) != ptr(v.disk, j, b));
    }
}

/// A sound file's blocks are in use.
pub proof fn lemma_owned_in_use(v: FsView, j: InodeView)
    requires
        volume_ok(v),
        file_sound(v, j),
    ensures
        forall|c: int| #[trigger] owns(v, j, c) ==> in_use(v, c) && 0 <= c < v.disk.len(),
{
}

/// Replacing the contents of one file changes no other file that shares no
/// block with it: its inode and every range of its bytes read as before.
#[verifier::spinoff_prover]
#[verifier::rlimit(60)]
pub proof fn law_write_file_keeps_others(
    v: FsView,
    n: u32,
    data: Seq<u8>,
    now: u32,
    m: u32,
    from: u64,
    len: nat,
)
    requires
        volume_ok(v),
        m != n,
        read_inode_s(v, n) matches Ok(i) ==> inode_shaped(i) && file_sound(v, i),
        read_inode_s(v, m) matches Ok(j) ==> file_sound(v, j),
        read_inode_s(v, n) matches Ok(i) ==> read_inode_s(v, m) matches Ok(j) ==> disjoint(v, i, j),
        write_file_s(v, n, data, now).0 is Ok,
    ensures
        read_inode_s(write_file_s(v, n, data, now).1, m) == read_inode_s(v, m),
        read_inode_data_s(write_file_s(v, n, data, now).1, m, from, len) == read_inode_data_s(
            v,
            m,
            from,
            len,
        ),
{
    let i = read_inode_s(v, n)->Ok_0;
    let (rt, vt, it) = truncate_inode_s(v, i, 0);
    let (rs, vs, is_) = write_span_s(vt, it, 0, data);
    let (rw, vw, iw) = write_inode_data_s(vt, it, 0, data, now);
    let v2 = write_file_s(v, n, data, now).1;
    lemma_truncate(v, i, 0);
    lemma_write_span_fits(vt, it, 0, data);
    lemma_write_span(vt, it, 0, data);
    law_inode_reads_back(vw, n, iw, m);
    lemma_table_untouched(vt, it, vs, is_, m);
    if let Ok(j) = read_inode_s(v, m) {
        lemma_owned_in_use(v, j);
        assert forall|c: int| #[trigger] owns(v, j, c) implies vw.disk[c] == v.disk[c] && in_use(
            vw,
            c,
        ) by {
            if owns(v, i, c) {
                assert(!owns(v, j, c));
            }
            assert(in_use(vt, c));
            if owns(vt, it, c) {
                assert(owns(v, i, c));
            }
            assert(vs.disk[c] == vt.disk[c]);
        }
        lemma_same_file(v, vw, j);
        lemma_still_sound(v, vw, j);
        lemma_inode_write_keeps(vw, n, iw, j);
        lemma_same_read(v, vw, j, from as int, min_of(len as int, j.size - from));
        lemma_same_read(vw, v2, j, from as int, min_of(len as int, j.size - from));
    }
}

/// Storing data in a file leaves the inode table alone.
pub proof fn lemma_table_untouched(v: FsView, i: InodeView, v1: FsView, i1: InodeView, m: u32)
    requires
        volume_ok(v),
        file_sound(v, i),
        evolved(v, i, v1, i1),
    ensures
        read_inode_s(v1, m) == read_inode_s(v, m),
{
    if m != 0 && m < v.sb.inode_count {
        let b = v.sb.inode_table_start + m / 8;
        assert(b < v.sb.data_start);
        assert(in_use(v, b));
        if owns(v, i, b) {
            lemma_owned_in_use(v, i);
        }
        assert(v1.disk[b] == v.disk[b]);
    }
}

} // verus!
