//! What adding and removing directory entries leaves to be found.

use crate::bytes::{patch, zeros};
use crate::fs::data_laws::{
    content, evolved, file_sound, lemma_byte_at, lemma_inode_write_keeps, lemma_meta_irrelevant,
    lemma_store, lemma_write_span_fits, lemma_write_step, max_blocks, ptr, same_file,
};
use crate::fs::directory::{
    append_entry_s, create_file_s, dir_add_entry_s, dir_list_s, dir_lookup_s, dir_remove_entry_s,
    entry_at, find_entry, find_unused, list_from, open_dir_s, put_entry_s,
};
use crate::fs::file_laws::lemma_table_untouched;
use crate::fs::laws::{law_alloc_inode, law_inode_reads_back, lemma_patch, volume_ok};
use crate::fs::nextfs::{
    alloc_inode_s, block_ptr, read_inode_s, step_len, write_inode_data_s, write_inode_s,
    write_span_s, write_step_s, FsError, FsView,
};
use crate::fs::ondisk::{
    blank_inode, dirent_bytes, dirent_of, field_name, inode_shaped, law_dirent_round_trip,
    law_name_round_trip, new_dirent, DirEntryView, InodeView, DEFAULT_FILE_MODE,
};
use vstd::prelude::*;
use vstd::utf8::encode_utf8;

verus! {

/// Number of entry slots of a directory.
pub open spec fn slots(i: InodeView) -> int {
    i.size as int / 64
}

/// A directory in good order: it has an even number of slots, since it grows by two
/// at a time, and no more than the largest file has room for; the blocks of all slots
/// are allocated, except perhaps the block that the next slot goes
/// to; and beyond the last slot there is nothing.
pub open spec fn dir_ok(v: FsView, i: InodeView) -> bool {
    &&& file_sound(v, i)
    &&& inode_shaped(i)
    &&& i.inode_type == 2
    &&& i.size % 128 == 0
    &&& slots(i) <= 8 * max_blocks()
    &&& forall|a: int| 0 <= a < slots(i) / 8 ==> #[trigger] ptr(v.disk, i, a) != 0
    &&& forall|a: int| slots(i) / 8 < a < max_blocks() ==> #[trigger] ptr(v.disk, i, a) == 0
    &&& forall|k: int|
        slots(i) <= k < 8 * (slots(i) / 8) + 8 && k < 8 * max_blocks() ==> (#[trigger] slot_entry(
            v.disk,
            i,
            k,
        )).inode == 0
}

/// What slot `k` of a directory holds, a missing block counting as zeros.
pub open spec fn slot_entry(disk: Seq<Seq<u8>>, i: InodeView, k: int) -> DirEntryView {
    dirent_of(content(disk, i, k / 8).subrange(64 * (k % 8), 64 * (k % 8) + 64))
}

/// An entry matches a name if it is in use under that name.
pub open spec fn matches_name(e: DirEntryView, name: Seq<char>) -> bool {
    e.inode != 0 && field_name(e.name) == name
}

/// A name that a directory entry can hold in full.
pub open spec fn good_name(name: Seq<char>) -> bool {
    encode_utf8(name).len() < 60 && !encode_utf8(name).contains(0u8)
}

pub proof fn lemma_entry_at(v: FsView, i: InodeView, k: int)
    requires
        volume_ok(v),
        file_sound(v, i),
        0 <= k < 8 * max_blocks(),
    ensures
        entry_at(v.disk, i, k) == Ok::<Option<DirEntryView>, FsError>(
            if ptr(v.disk, i, k / 8) == 0 {
                None
            } else {
                Some(slot_entry(v.disk, i, k))
            },
        ),
{
}

/// Where a search ends: at the first match.
proof fn lemma_find_at(
    disk: Seq<Seq<u8>>,
    i: InodeView,
    name: Seq<char>,
    from: int,
    at: int,
    total: int,
)
    requires
        from <= at < total,
        forall|k: int|
            from <= k < at ==> (#[trigger] entry_at(disk, i, k) matches Ok(Some(e))
                && !matches_name(e, name)),
        entry_at(disk, i, at) matches Ok(Some(e)) && matches_name(e, name),
    ensures
        find_entry(disk, i, name, from, total) == Ok::<int, FsError>(at),
    decreases at - from,
{
    if from < at {
        lemma_find_at(disk, i, name, from + 1, at, total);
    }
}

/// A search that passes no match finds nothing.
proof fn lemma_find_none(
    disk: Seq<Seq<u8>>,
    i: InodeView,
    name: Seq<char>,
    from: int,
    total: int,
)
    requires
        forall|k: int|
            from <= k < total ==> match #[trigger] entry_at(disk, i, k) {
                Ok(Some(e)) => !matches_name(e, name),
                Ok(None) => true,
                Err(_) => false,
            },
    ensures
        find_entry(disk, i, name, from, total) == Err::<int, FsError>(FsError::NotFound),
    decreases total - from,
{
    if from < total {
        let x = entry_at(disk, i, from);
        lemma_find_none(disk, i, name, from + 1, total);
    }
}

/// What a search found is a match, and nothing before it is.
proof fn lemma_find_sound(
    disk: Seq<Seq<u8>>,
    i: InodeView,
    name: Seq<char>,
    from: int,
    total: int,
)
    ensures
        match find_entry(disk, i, name, from, total) {
            Ok(k) => from <= k < total && (entry_at(disk, i, k) matches Ok(Some(e)) && matches_name(
                e,
                name,
            )) && forall|j: int|
                from <= j < k ==> (#[trigger] entry_at(disk, i, j) matches Ok(Some(e))
                    && !matches_name(e, name)),
            Err(_) => true,
        },
    decreases total - from,
{
    if from < total {
        lemma_find_sound(disk, i, name, from + 1, total);
    }
}

/// A failed search over slots that are all present passed no match.
pub proof fn lemma_find_failed(
    disk: Seq<Seq<u8>>,
    i: InodeView,
    name: Seq<char>,
    from: int,
    upto: int,
    total: int,
)
    requires
        from <= upto <= total,
        find_entry(disk, i, name, from, total) is Err,
        forall|k: int| from <= k < upto ==> (#[trigger] entry_at(disk, i, k) matches Ok(Some(e))),
    ensures
        forall|k: int|
            from <= k < upto ==> (#[trigger] entry_at(disk, i, k) matches Ok(Some(e))
                && !matches_name(e, name)),
    decreases upto - from,
{
    if from < upto {
        let x = entry_at(disk, i, from);
        lemma_find_failed(disk, i, name, from + 1, upto, total);
    }
}

pub proof fn lemma_find_unused(disk: Seq<Seq<u8>>, i: InodeView, from: int, total: int)
    ensures
        match find_unused(disk, i, from, total) {
            Ok(Some(k)) => from <= k < total && (entry_at(disk, i, k) matches Ok(Some(e)) && e.inode
                == 0) && forall|j: int|
                from <= j < k ==> (#[trigger] entry_at(disk, i, j) matches Ok(Some(e)) && e.inode
                    != 0),
            _ => true,
        },
    decreases total - from,
{
    if from < total {
        lemma_find_unused(disk, i, from + 1, total);
    }
}

/// Overwriting one slot of a directory.
pub proof fn lemma_put_entry(v: FsView, d: u32, i: InodeView, k: int, e: DirEntryView)
    requires
        volume_ok(v),
        file_sound(v, i),
        0 <= k < 8 * max_blocks(),
        ptr(v.disk, i, k / 8) != 0,
        e.name.len() == 60,
    ensures
        ({
            let (r, v1) = put_entry_s(v, i, k, e);
            &&& r is Ok
            &&& evolved(v, i, v1, i)
            &&& entry_at(v1.disk, i, k) == Ok::<Option<DirEntryView>, FsError>(Some(e))
            &&& forall|j: int|
                0 <= j < 8 * max_blocks() && j != k ==> #[trigger] entry_at(v1.disk, i, j)
                    == entry_at(v.disk, i, j)
            &&& forall|m: u32| #[trigger] read_inode_s(v1, m) == read_inode_s(v, m)
        }),
{
    let b = ptr(v.disk, i, k / 8);
    let off = 64 * (k % 8);
    law_dirent_round_trip(e);
    lemma_patch(v.disk[b as int], off, dirent_bytes(e));
    let data = patch(v.disk[b as int], off, dirent_bytes(e));
    lemma_store(v, i, k / 8, data);
    let v1 = put_entry_s(v, i, k, e).1;
    lemma_entry_at(v1, i, k);
    assert(ptr(v1.disk, i, k / 8) == b);
    assert forall|j: int| 0 <= j < 8 * max_blocks() && j != k implies #[trigger] entry_at(
        v1.disk,
        i,
        j,
    ) == entry_at(v.disk, i, j) by {
        lemma_entry_at(v, i, j);
        lemma_entry_at(v1, i, j);
        assert(ptr(v1.disk, i, j / 8) == ptr(v.disk, i, j / 8));
        if j / 8 == k / 8 {
            let o = 64 * (j % 8);
            assert(o + 64 <= off || off + 64 <= o);
            assert(data.subrange(o, o + 64) =~= v.disk[b as int].subrange(o, o + 64));
        } else {
            assert(content(v1.disk, i, j / 8) == content(v.disk, i, j / 8));
        }
    }
    assert forall|m: u32| #[trigger] read_inode_s(v1, m) == read_inode_s(v, m) by {
        lemma_table_untouched(v, i, v1, i, m);
    }
}

/// Two searches that see the same, but for entries that match in neither, find
/// the same.
proof fn lemma_find_same(
    d0: Seq<Seq<u8>>,
    d1: Seq<Seq<u8>>,
    i: InodeView,
    name: Seq<char>,
    from: int,
    total: int,
)
    requires
        forall|j: int|
            from <= j < total ==> (#[trigger] entry_at(d1, i, j) == entry_at(d0, i, j) || (entry_at(
                d0,
                i,
                j,
            ) matches Ok(Some(e)) && !matches_name(e, name) && (entry_at(d1, i, j) matches Ok(
                Some(f),
            ) && !matches_name(f, name)))),
    ensures
        find_entry(d1, i, name, from, total) == find_entry(d0, i, name, from, total),
    decreases total - from,
{
    if from < total {
        let x = entry_at(d1, i, from);
        lemma_find_same(d0, d1, i, name, from + 1, total);
    }
}

/// Removing a name: it is no longer found, if no other entry bears it, and every
/// other name is found as before.
pub proof fn law_remove_then_lookup(v: FsView, d: u32, name: Seq<char>, other: Seq<char>)
    requires
        volume_ok(v),
        open_dir_s(v, d) matches Ok(i) ==> dir_ok(v, i),
        dir_remove_entry_s(v, d, name).0 is Ok,
    ensures
        ({
            let (r, v1) = dir_remove_entry_s(v, d, name);
            let i = open_dir_s(v, d)->Ok_0;
            &&& dir_lookup_s(v, d, name) == r
            &&& (forall|j: int, k: int|
                0 <= j < slots(i) && 0 <= k < slots(i) && j != k && matches_name(
                    #[trigger] slot_entry(v.disk, i, j),
                    name,
                ) ==> !matches_name(#[trigger] slot_entry(v.disk, i, k), name)) ==> dir_lookup_s(
                v1,
                d,
                name,
            ) == Err::<u32, FsError>(FsError::NotFound)
            &&& other != name ==> dir_lookup_s(v1, d, other) == dir_lookup_s(v, d, other)
        }),
{
    let i = open_dir_s(v, d)->Ok_0;
    let total = slots(i);
    let (r, v1) = dir_remove_entry_s(v, d, name);
    lemma_find_sound(v.disk, i, name, 0, total);
    let k = find_entry(v.disk, i, name, 0, total)->Ok_0;
    let none = new_dirent(0, Seq::empty());
    lemma_entry_at(v, i, k);
    lemma_put_entry(v, d, i, k, none);
    assert(open_dir_s(v1, d) == open_dir_s(v, d)) by {
        assert(read_inode_s(v1, d) == read_inode_s(v, d));
    }
    if forall|j: int, k: int|
        0 <= j < slots(i) && 0 <= k < slots(i) && j != k && matches_name(
            #[trigger] slot_entry(v.disk, i, j),
            name,
        ) ==> !matches_name(#[trigger] slot_entry(v.disk, i, k), name) {
        assert(matches_name(slot_entry(v.disk, i, k), name));
        assert forall|j: int| 0 <= j < total implies match #[trigger] entry_at(v1.disk, i, j) {
            Ok(Some(e)) => !matches_name(e, name),
            Ok(None) => true,
            Err(_) => false,
        } by {
            lemma_entry_at(v, i, j);
            if j != k {
                assert(entry_at(v1.disk, i, j) == entry_at(v.disk, i, j));
                assert(!matches_name(slot_entry(v.disk, i, j), name));
            }
        }
        lemma_find_none(v1.disk, i, name, 0, total);
    }
    if other != name {
        assert forall|j: int| 0 <= j < total implies (#[trigger] entry_at(v1.disk, i, j)
            == entry_at(v.disk, i, j) || (entry_at(v.disk, i, j) matches Ok(Some(e))
            && !matches_name(e, other) && (entry_at(v1.disk, i, j) matches Ok(Some(f))
            && !matches_name(f, other)))) by {
            if j != k {
                assert(entry_at(v1.disk, i, j) == entry_at(v.disk, i, j));
            }
        }
        lemma_find_same(v.disk, v1.disk, i, other, 0, total);
        lemma_find_sound(v.disk, i, other, 0, total);
    }
}

/// A write that fits into one block is a single step.
proof fn lemma_one_step(v: FsView, i: InodeView, pos: int, data: Seq<u8>)
    requires
        0 < data.len(),
        pos % 512 + data.len() <= 512,
    ensures
        write_span_s(v, i, pos, data) == write_step_s(v, i, pos, data),
{
    let n = step_len(pos, data.len() as int);
    assert(n == data.len());
    assert(data.subrange(0, n) =~= data);
    assert(data.skip(n) =~= Seq::<u8>::empty());
    let (r, v1, i1) = write_step_s(v, i, pos, data);
    assert(write_span_s(v1, i1, pos + n, data.skip(n)) == (Ok::<(), FsError>(()), v1, i1));
}

/// The slots of a directory after an entry was stored in slot `slots(i)`.
pub open spec fn appended(v: FsView, i: InodeView, v1: FsView, i1: InodeView, e: DirEntryView) -> bool {
    let t = slots(i);
    &&& ptr(v1.disk, i1, t / 8) != 0
    &&& forall|a: int|
        0 <= a < max_blocks() && a != t / 8 ==> #[trigger] ptr(v1.disk, i1, a) == ptr(v.disk, i, a)
    &&& slot_entry(v1.disk, i1, t) == e
    &&& forall|j: int|
        0 <= j < 8 * max_blocks() && j != t ==> #[trigger] slot_entry(v1.disk, i1, j) == slot_entry(
            v.disk,
            i,
            j,
        )
}

/// Storing an entry behind the last slot of a directory.
pub proof fn lemma_append_step(v: FsView, i: InodeView, e: DirEntryView)
    requires
        volume_ok(v),
        dir_ok(v, i),
        slots(i) < 8 * max_blocks(),
        e.name.len() == 60,
        write_step_s(v, i, i.size as int, dirent_bytes(e)).0 is Ok,
    ensures
        ({
            let (r, v1, i1) = write_step_s(v, i, i.size as int, dirent_bytes(e));
            evolved(v, i, v1, i1) && appended(v, i, v1, i1, e)
        }),
{
    let t = slots(i);
    let pos = i.size as int;
    let data = dirent_bytes(e);
    law_dirent_round_trip(e);
    assert(pos == 64 * t);
    assert(pos / 512 == t / 8 && pos % 512 == 64 * (t % 8));
    lemma_write_step(v, i, pos, data);
    let (r, v1, i1) = write_step_s(v, i, pos, data);
    let c = content(v.disk, i, t / 8);
    lemma_byte_at(v, i, pos);
    lemma_patch(c, pos % 512, data);
    assert(slot_entry(v1.disk, i1, t) == e);
    assert forall|j: int| 0 <= j < 8 * max_blocks() && j != t implies #[trigger] slot_entry(
        v1.disk,
        i1,
        j,
    ) == slot_entry(v.disk, i, j) by {
        if j / 8 == t / 8 {
            let o = 64 * (j % 8);
            assert(o + 64 <= pos % 512 || pos % 512 + 64 <= o);
            assert(content(v1.disk, i1, t / 8).subrange(o, o + 64) =~= c.subrange(o, o + 64));
        } else {
            assert(content(v1.disk, i1, j / 8) == content(v.disk, i, j / 8));
        }
    }
}

/// The inode that a directory has after an entry was appended.
pub open spec fn grown(i: InodeView, i1: InodeView, now: u32) -> InodeView {
    InodeView { size: (i.size + 128) as u64, mtime: now, ..i1 }
}

/// An entry can only be appended where there is room for the two slots that the
/// directory grows by.
pub proof fn lemma_append_fits(v: FsView, d: u32, i: InodeView, e: DirEntryView, now: u32)
    requires
        dir_ok(v, i),
        e.name.len() == 60,
        append_entry_s(v, d, i, e, now).0 is Ok,
    ensures
        slots(i) + 2 <= 8 * max_blocks(),
{
    law_dirent_round_trip(e);
    assert(write_span_s(v, i, i.size as int, dirent_bytes(e)).0 is Ok);
    lemma_write_span_fits(v, i, i.size as int, dirent_bytes(e));
}

/// Appending an entry to a directory keeps the directory in good order.
pub proof fn lemma_append(v: FsView, d: u32, i: InodeView, e: DirEntryView, now: u32)
    requires
        volume_ok(v),
        dir_ok(v, i),
        slots(i) < 8 * max_blocks(),
        e.name.len() == 60,
        append_entry_s(v, d, i, e, now).0 is Ok,
    ensures
        ({
            let (r, v1) = append_entry_s(v, d, i, e, now);
            let (rs, vs, is_) = write_step_s(v, i, i.size as int, dirent_bytes(e));
            let g = grown(i, is_, now);
            &&& volume_ok(v1)
            &&& read_inode_s(v1, d) == Ok::<InodeView, FsError>(g)
            &&& file_sound(v1, g)
            &&& inode_shaped(g)
            &&& g.inode_type == 2
            &&& slots(g) == slots(i) + 2
            &&& appended(v, i, v1, g, e)
            &&& forall|m: u32|
                m != d ==> #[trigger] read_inode_s(v1, m) == read_inode_s(v, m)
        }),
{
    let (rs, vs, is_) = write_step_s(v, i, i.size as int, dirent_bytes(e));
    let g = grown(i, is_, now);
    lemma_append_is(v, d, i, e, now);
    lemma_append_step(v, i, e);
    lemma_meta_irrelevant(vs, is_, g);
    lemma_inode_write_keeps(vs, d, g, g);
    law_inode_reads_back(vs, d, g, d);
    let v1 = append_entry_s(v, d, i, e, now).1;
    lemma_appended_saved(v, i, vs, is_, v1, g, e);
    assert forall|m: u32| m != d implies #[trigger] read_inode_s(v1, m) == read_inode_s(v, m) by {
        law_inode_reads_back(vs, d, g, m);
        lemma_table_untouched(v, i, vs, is_, m);
    }
}

/// Appending is one step of storing data and one of storing the inode.
#[verifier::spinoff_prover]
#[verifier::rlimit(60)]
pub proof fn lemma_append_is(v: FsView, d: u32, i: InodeView, e: DirEntryView, now: u32)
    requires
        dir_ok(v, i),
        slots(i) < 8 * max_blocks(),
        e.name.len() == 60,
        append_entry_s(v, d, i, e, now).0 is Ok,
    ensures
        ({
            let (rs, vs, is_) = write_step_s(v, i, i.size as int, dirent_bytes(e));
            &&& rs is Ok
            &&& append_entry_s(v, d, i, e, now) == write_inode_s(vs, d, grown(i, is_, now))
        }),
{
    let data = dirent_bytes(e);
    let pos = i.size as int;
    let x = write_span_s(v, i, pos, data);
    assert(data.len() == 64) by {
        law_dirent_round_trip(e);
    }
    assert(x == write_step_s(v, i, pos, data)) by {
        assert(pos % 512 == 64 * (slots(i) % 8));
        lemma_one_step(v, i, pos, data);
    }
    assert(crate::fs::nextfs::same_but_ptrs(i, x.2)) by {
        crate::fs::nextfs::lemma_write_span_inode(v, i, pos, data);
    }
    lemma_append_from_span(v, d, i, e, now, x.0, x.1, x.2);
}

#[verifier::spinoff_prover]
#[verifier::rlimit(60)]
proof fn lemma_append_from_span(
    v: FsView,
    d: u32,
    i: InodeView,
    e: DirEntryView,
    now: u32,
    rs: Result<(), FsError>,
    vs: FsView,
    is_: InodeView,
)
    requires
        i.inode_type == 2,
        dirent_bytes(e).len() == 64,
        write_span_s(v, i, i.size as int, dirent_bytes(e)) == (rs, vs, is_),
        crate::fs::nextfs::same_but_ptrs(i, is_),
        append_entry_s(v, d, i, e, now).0 is Ok,
    ensures
        rs is Ok,
        append_entry_s(v, d, i, e, now) == write_inode_s(vs, d, grown(i, is_, now)),
{
    let (rw, vw, iw) = write_inode_data_s(v, i, i.size, dirent_bytes(e), now);
    assert(rw is Ok);
    assert(vw == vs);
    assert(iw.size == i.size + 64);
    assert(InodeView { size: (iw.size + 64) as u64, ..iw } =~= grown(i, is_, now));
}

/// Storing the inode leaves the slots as they are.
proof fn lemma_appended_saved(
    v: FsView,
    i: InodeView,
    vs: FsView,
    is_: InodeView,
    v1: FsView,
    g: InodeView,
    e: DirEntryView,
)
    requires
        appended(v, i, vs, is_, e),
        0 <= slots(i) < 8 * max_blocks(),
        same_file(vs, v1, g),
        forall|a: int| #[trigger] block_ptr(vs.disk, g, a) == block_ptr(vs.disk, is_, a),
        forall|a: int| #[trigger] content(vs.disk, g, a) == content(vs.disk, is_, a),
    ensures
        appended(v, i, v1, g, e),
{
    assert forall|a: int| 0 <= a < max_blocks() implies #[trigger] ptr(v1.disk, g, a) == ptr(
        vs.disk,
        is_,
        a,
    ) by {
        assert(block_ptr(v1.disk, g, a) == block_ptr(vs.disk, g, a));
        assert(block_ptr(vs.disk, g, a) == block_ptr(vs.disk, is_, a));
    }
    assert forall|j: int| 0 <= j < 8 * max_blocks() implies #[trigger] slot_entry(v1.disk, g, j)
        == slot_entry(vs.disk, is_, j) by {
        assert(content(v1.disk, g, j / 8) == content(vs.disk, g, j / 8));
        assert(content(vs.disk, g, j / 8) == content(vs.disk, is_, j / 8));
    }
    assert forall|a: int| 0 <= a < max_blocks() && a != slots(i) / 8 implies #[trigger] ptr(
        v1.disk,
        g,
        a,
    ) == ptr(v.disk, i, a) by {
        assert(ptr(vs.disk, is_, a) == ptr(v.disk, i, a));
    }
    assert forall|j: int| 0 <= j < 8 * max_blocks() && j != slots(i) implies #[trigger] slot_entry(
        v1.disk,
        g,
        j,
    ) == slot_entry(v.disk, i, j) by {
        assert(slot_entry(vs.disk, is_, j) == slot_entry(v.disk, i, j));
    }
}

/// An appended entry is found under its name; other names are found as before.
proof fn lemma_find_after_append(
    v: FsView,
    i: InodeView,
    v1: FsView,
    g: InodeView,
    e: DirEntryView,
    name: Seq<char>,
)
    requires
        volume_ok(v),
        volume_ok(v1),
        dir_ok(v, i),
        slots(i) + 2 <= 8 * max_blocks(),
        file_sound(v1, g),
        slots(g) == slots(i) + 2,
        appended(v, i, v1, g, e),
        find_unused(v.disk, i, 0, slots(i)) == Ok::<Option<int>, FsError>(None),
        matches_name(e, name) ==> find_entry(v.disk, i, name, 0, slots(i)) is Err,
    ensures
        matches_name(e, name) ==> find_entry(v1.disk, g, name, 0, slots(g)) == Ok::<int, FsError>(
            slots(i),
        ),
        !matches_name(e, name) ==> match find_entry(v.disk, i, name, 0, slots(i)) {
            Ok(k) => find_entry(v1.disk, g, name, 0, slots(g)) == Ok::<int, FsError>(k) && k
                < slots(i) && entry_at(v1.disk, g, k) == entry_at(v.disk, i, k),
            Err(x) => x == FsError::NotFound && find_entry(v1.disk, g, name, 0, slots(g)) == Err::<
                int,
                FsError,
            >(FsError::NotFound),
        },
{
    let t = slots(i);
    lemma_slots_after_append(v, i, v1, g, e);
    if matches_name(e, name) {
        lemma_no_match_after(v, i, v1, g, e, name);
        lemma_find_at(v1.disk, g, name, 0, t, t + 2);
    } else {
        lemma_find_sound(v.disk, i, name, 0, t);
        match find_entry(v.disk, i, name, 0, t) {
            Ok(k) => {
                assert forall|j: int| 0 <= j < k implies (#[trigger] entry_at(v1.disk, g, j)
                    matches Ok(Some(x)) && !matches_name(x, name)) by {
                    assert(entry_at(v.disk, i, j) matches Ok(Some(x)) && !matches_name(x, name));
                }
                assert(entry_at(v.disk, i, k) matches Ok(Some(x)));
                lemma_find_at(v1.disk, g, name, 0, k, t + 2);
            },
            Err(x) => {
                lemma_find_err(v, i, name, 0, t);
                lemma_no_match_after(v, i, v1, g, e, name);
                assert forall|j: int| 0 <= j < t + 2 implies match #[trigger] entry_at(
                    v1.disk,
                    g,
                    j,
                ) {
                    Ok(Some(x)) => !matches_name(x, name),
                    Ok(None) => true,
                    Err(_) => false,
                } by {}
                lemma_find_none(v1.disk, g, name, 0, t + 2);
            },
        }
    }
}

/// What the slots of a directory show after an entry was appended: the former
/// slots as before, the new entry, and an empty slot or none.
proof fn lemma_slots_after_append(
    v: FsView,
    i: InodeView,
    v1: FsView,
    g: InodeView,
    e: DirEntryView,
)
    requires
        volume_ok(v),
        volume_ok(v1),
        dir_ok(v, i),
        slots(i) + 2 <= 8 * max_blocks(),
        file_sound(v1, g),
        appended(v, i, v1, g, e),
    ensures
        entry_at(v1.disk, g, slots(i)) == Ok::<Option<DirEntryView>, FsError>(Some(e)),
        match entry_at(v1.disk, g, slots(i) + 1) {
            Ok(Some(x)) => x.inode == 0,
            Ok(None) => true,
            Err(_) => false,
        },
        forall|j: int|
            0 <= j < slots(i) ==> match #[trigger] entry_at(v.disk, i, j) {
                Ok(Some(x)) => entry_at(v1.disk, g, j) == Ok::<Option<DirEntryView>, FsError>(
                    Some(x),
                ),
                Ok(None) => entry_at(v1.disk, g, j) matches Ok(Some(x)) && x.inode == 0,
                Err(_) => false,
            },
{
    let t = slots(i);
    lemma_entry_at(v1, g, t);
    lemma_entry_at(v1, g, t + 1);
    assert(slot_entry(v1.disk, g, t + 1) == slot_entry(v.disk, i, t + 1));
    if (t + 1) / 8 == t / 8 {
        assert(slot_entry(v.disk, i, t + 1).inode == 0);
    } else {
        assert(ptr(v1.disk, g, (t + 1) / 8) == ptr(v.disk, i, (t + 1) / 8));
    }
    assert forall|j: int| 0 <= j < t implies match #[trigger] entry_at(v.disk, i, j) {
        Ok(Some(x)) => entry_at(v1.disk, g, j) == Ok::<Option<DirEntryView>, FsError>(Some(x)),
        Ok(None) => entry_at(v1.disk, g, j) matches Ok(Some(x)) && x.inode == 0,
        Err(_) => false,
    } by {
        lemma_entry_at(v, i, j);
        lemma_entry_at(v1, g, j);
        assert(slot_entry(v1.disk, g, j) == slot_entry(v.disk, i, j));
        if j / 8 != t / 8 {
            assert(ptr(v.disk, i, j / 8) != 0);
            assert(ptr(v1.disk, g, j / 8) == ptr(v.disk, i, j / 8));
        }
        if ptr(v.disk, i, j / 8) == 0 {
            let z = zeros(512).subrange(64 * (j % 8), 64 * (j % 8) + 64);
            assert(crate::bytes::get32(z, 0) == 0);
        }
    }
}

/// A name that was not found in a directory is in none of its former slots.
proof fn lemma_no_match_after(
    v: FsView,
    i: InodeView,
    v1: FsView,
    g: InodeView,
    e: DirEntryView,
    name: Seq<char>,
)
    requires
        volume_ok(v),
        volume_ok(v1),
        dir_ok(v, i),
        slots(i) + 2 <= 8 * max_blocks(),
        file_sound(v1, g),
        appended(v, i, v1, g, e),
        find_entry(v.disk, i, name, 0, slots(i)) is Err,
    ensures
        forall|j: int|
            0 <= j < slots(i) ==> (#[trigger] entry_at(v1.disk, g, j) matches Ok(Some(x))
                && !matches_name(x, name)),
{
    let t = slots(i);
    lemma_slots_after_append(v, i, v1, g, e);
    assert forall|j: int| 0 <= j < t implies (#[trigger] entry_at(v1.disk, g, j) matches Ok(Some(x))
        && !matches_name(x, name)) by {
        let y = entry_at(v.disk, i, j);
        lemma_entry_at(v, i, j);
        if ptr(v.disk, i, j / 8) != 0 {
            assert forall|k: int| 0 <= k < j + 1 implies (#[trigger] entry_at(v.disk, i, k)
                matches Ok(Some(x))) by {
                lemma_entry_at(v, i, k);
                if k / 8 != j / 8 {
                    assert(k / 8 < t / 8);
                    assert(ptr(v.disk, i, k / 8) != 0);
                }
            }
            lemma_find_failed(v.disk, i, name, 0, j + 1, t);
        }
    }
}

/// A search in a sound directory fails only for want of the name.
proof fn lemma_find_err(v: FsView, i: InodeView, name: Seq<char>, from: int, total: int)
    requires
        volume_ok(v),
        file_sound(v, i),
        0 <= from,
        total <= 8 * max_blocks(),
    ensures
        find_entry(v.disk, i, name, from, total) matches Err(e) ==> e == FsError::NotFound,
    decreases total - from,
{
    if from < total {
        lemma_entry_at(v, i, from);
        lemma_find_err(v, i, name, from + 1, total);
    }
}

/// A name that was added to a directory is found there, and every other name is
/// found as before.
pub proof fn law_add_then_lookup(
    v: FsView,
    d: u32,
    name: Seq<char>,
    target: u32,
    now: u32,
    other: Seq<char>,
)
    requires
        volume_ok(v),
        open_dir_s(v, d) matches Ok(i) ==> dir_ok(v, i),
        good_name(name),
        target != 0,
        dir_add_entry_s(v, d, name, target, now).0 is Ok,
    ensures
        dir_lookup_s(dir_add_entry_s(v, d, name, target, now).1, d, name) == Ok::<u32, FsError>(
            target,
        ),
        other != name ==> dir_lookup_s(dir_add_entry_s(v, d, name, target, now).1, d, other)
            == dir_lookup_s(v, d, other),
        forall|m: u32|
            m != d ==> #[trigger] read_inode_s(
                dir_add_entry_s(v, d, name, target, now).1,
                m,
            ) == read_inode_s(v, m),
{
    let i = open_dir_s(v, d)->Ok_0;
    let e = new_dirent(target, name);
    let total = slots(i);
    let v1 = dir_add_entry_s(v, d, name, target, now).1;
    law_name_round_trip(name);
    assert(e.name.len() == 60);
    assert(matches_name(e, name));
    lemma_find_unused(v.disk, i, 0, total);
    match find_unused(v.disk, i, 0, total) {
        Ok(Some(k)) => {
            lemma_entry_at(v, i, k);
            lemma_put_entry(v, d, i, k, e);
            assert(read_inode_s(v1, d) == read_inode_s(v, d));
            lemma_find_failed(v.disk, i, name, 0, k, total);
            assert forall|j: int| 0 <= j < k implies (#[trigger] entry_at(v1.disk, i, j) matches Ok(
                Some(x),
            ) && !matches_name(x, name)) by {
                assert(entry_at(v1.disk, i, j) == entry_at(v.disk, i, j));
            }
            lemma_find_at(v1.disk, i, name, 0, k, total);
            if other != name {
                assert forall|j: int| 0 <= j < total implies (#[trigger] entry_at(v1.disk, i, j)
                    == entry_at(v.disk, i, j) || (entry_at(v.disk, i, j) matches Ok(Some(x))
                    && !matches_name(x, other) && (entry_at(v1.disk, i, j) matches Ok(Some(y))
                    && !matches_name(y, other)))) by {
                    if j != k {
                        assert(entry_at(v1.disk, i, j) == entry_at(v.disk, i, j));
                    }
                }
                lemma_find_same(v.disk, v1.disk, i, other, 0, total);
                lemma_find_sound(v.disk, i, other, 0, total);
            }
        },
        _ => {
            lemma_append_fits(v, d, i, e, now);
            lemma_append(v, d, i, e, now);
            let (rs, vs, is_) = write_step_s(v, i, i.size as int, dirent_bytes(e));
            let g = grown(i, is_, now);
            lemma_find_after_append(v, i, v1, g, e, name);
            lemma_entry_at(v1, g, total);
            if other != name {
                lemma_find_after_append(v, i, v1, g, e, other);
            }
        },
    }
}

/// A file that was created is found under its name, with the inode that
/// creation returned: an empty file with default permissions. Every other name
/// of the directory is found as before.
pub proof fn law_create_then_lookup(
    v: FsView,
    d: u32,
    name: Seq<char>,
    now: u32,
    other: Seq<char>,
)
    requires
        volume_ok(v),
        open_dir_s(v, d) matches Ok(i) ==> dir_ok(v, i),
        d < v.used.len() && v.used[d as int],
        good_name(name),
        create_file_s(v, d, name, now).0 is Ok,
    ensures
        ({
            let (r, v3) = create_file_s(v, d, name, now);
            &&& dir_lookup_s(v3, d, name) == r
            &&& read_inode_s(v3, r->Ok_0) == Ok::<InodeView, FsError>(
                InodeView { mtime: now, ..blank_inode(1, DEFAULT_FILE_MODE) },
            )
            &&& other != name ==> dir_lookup_s(v3, d, other) == dir_lookup_s(v, d, other)
        }),
{
    law_alloc_inode(v);
    let (ra, v1) = alloc_inode_s(v);
    let n = ra->Ok_0;
    let fresh = InodeView { mtime: now, ..blank_inode(1, DEFAULT_FILE_MODE) };
    let v2 = write_inode_s(v1, n, fresh).1;
    assert(inode_shaped(fresh));
    law_inode_reads_back(v1, n, fresh, d);
    assert(read_inode_s(v1, d) == read_inode_s(v, d));
    if let Ok(i) = open_dir_s(v, d) {
        lemma_same_but_counters(v, v1, i);
        lemma_inode_write_keeps(v1, n, fresh, i);
        lemma_dir_same(v, v1, v2, d, i);
        law_add_then_lookup(v2, d, name, n, now, other);
        lemma_lookup_same(v, v2, d, i, other);
    } else {
        assert(open_dir_s(v2, d) is Err);
    }
}

/// Counters and the inode bitmap decide nothing of a file.
proof fn lemma_same_but_counters(v: FsView, v1: FsView, i: InodeView)
    requires
        volume_ok(v),
        file_sound(v, i),
        v1.disk == v.disk,
        v1.free == v.free,
        v1.used.len() == v.used.len(),
        v1.sb == (crate::fs::ondisk::SuperblockView { free_inodes: v1.sb.free_inodes, ..v.sb }),
    ensures
        volume_ok(v1),
        file_sound(v1, i),
{
    assert forall|a: int| 0 <= a < max_blocks() && #[trigger] ptr(v1.disk, i, a)
        != 0 implies v1.sb.data_start <= ptr(v1.disk, i, a) < v1.sb.total_blocks
        && !v1.free[ptr(v1.disk, i, a) as int] && ptr(v1.disk, i, a) != i.indirect by {
        assert(ptr(v.disk, i, a) != 0);
    }
}

/// A directory in good order stays so when nothing it is made of changes.
pub proof fn lemma_dir_same(v: FsView, v1: FsView, v2: FsView, d: u32, i: InodeView)
    requires
        volume_ok(v),
        dir_ok(v, i),
        v1.disk == v.disk,
        same_file(v1, v2, i),
        file_sound(v2, i),
    ensures
        dir_ok(v2, i),
{
    assert forall|a: int| 0 <= a < max_blocks() implies #[trigger] ptr(v2.disk, i, a) == ptr(
        v.disk,
        i,
        a,
    ) by {
        assert(block_ptr(v2.disk, i, a) == block_ptr(v1.disk, i, a));
    }
    assert forall|k: int|
        slots(i) <= k < 8 * (slots(i) / 8) + 8 && k < 8 * max_blocks() implies (
    #[trigger] slot_entry(v2.disk, i, k)).inode == 0 by {
        assert(content(v2.disk, i, k / 8) == content(v1.disk, i, k / 8));
        assert(slot_entry(v.disk, i, k).inode == 0);
    }
}

/// A directory whose slots stay the same answers every lookup the same.
pub proof fn lemma_lookup_same(v: FsView, v2: FsView, d: u32, i: InodeView, name: Seq<char>)
    requires
        volume_ok(v),
        volume_ok(v2),
        file_sound(v, i),
        file_sound(v2, i),
        same_file(v, v2, i),
        slots(i) <= 8 * max_blocks(),
        open_dir_s(v, d) == Ok::<InodeView, FsError>(i),
        open_dir_s(v2, d) == Ok::<InodeView, FsError>(i),
    ensures
        dir_lookup_s(v2, d, name) == dir_lookup_s(v, d, name),
{
    assert forall|j: int| 0 <= j < slots(i) implies #[trigger] entry_at(v2.disk, i, j) == entry_at(
        v.disk,
        i,
        j,
    ) by {
        lemma_entry_at(v, i, j);
        lemma_entry_at(v2, i, j);
        assert(block_ptr(v2.disk, i, j / 8) == block_ptr(v.disk, i, j / 8));
        assert(content(v2.disk, i, j / 8) == content(v.disk, i, j / 8));
    }
    lemma_find_same(v.disk, v2.disk, i, name, 0, slots(i));
    lemma_find_sound(v.disk, i, name, 0, slots(i));
}

/// The inode of the first entry of a listing that has a name.
pub open spec fn first_named(l: Seq<(Seq<char>, u32)>, name: Seq<char>) -> Option<u32>
    decreases l.len(),
{
    if l.len() == 0 {
        None
    } else if l[0].0 == name {
        Some(l[0].1)
    } else {
        first_named(l.skip(1), name)
    }
}

proof fn lemma_lookup_in_list(
    disk: Seq<Seq<u8>>,
    i: InodeView,
    name: Seq<char>,
    k: int,
    total: int,
)
    ensures
        match list_from(disk, i, k, total) {
            Ok(l) => match find_entry(disk, i, name, k, total) {
                Ok(j) => first_named(l, name) == Some(entry_at(disk, i, j)->Ok_0->Some_0.inode),
                Err(e) => e == FsError::NotFound && first_named(l, name) is None,
            },
            Err(e) => find_entry(disk, i, name, k, total) is Ok || find_entry(
                disk,
                i,
                name,
                k,
                total,
            ) == Err::<int, FsError>(e),
        },
    decreases total - k,
{
    if k < total {
        if let Ok(Some(e)) = entry_at(disk, i, k) {
            lemma_lookup_in_list(disk, i, name, k + 1, total);
            if let Ok(rest) = list_from(disk, i, k + 1, total) {
                if e.inode != 0 {
                    let l = seq![(field_name(e.name), e.inode)] + rest;
                    assert(l[0] == (field_name(e.name), e.inode));
                    assert(l.skip(1) =~= rest);
                } else {
                    assert(Seq::<(Seq<char>, u32)>::empty() + rest =~= rest);
                }
            }
        }
    }
}

/// A lookup finds the first entry of the listing that has the name, and nothing where
/// the listing has none. Where the directory cannot be listed, a lookup fails with the
/// same error, unless it finds the name before the place where listing fails.
pub proof fn law_lookup_agrees_with_list(v: FsView, d: u32, name: Seq<char>)
    ensures
        match dir_list_s(v, d) {
            Ok(l) => dir_lookup_s(v, d, name) == (match first_named(l, name) {
                Some(n) => Ok::<u32, FsError>(n),
                None => Err::<u32, FsError>(FsError::NotFound),
            }),
            Err(e) => dir_lookup_s(v, d, name) is Ok || dir_lookup_s(v, d, name) == Err::<
                u32,
                FsError,
            >(e),
        },
        read_inode_s(v, d) matches Ok(i) && i.inode_type != 2 ==> dir_lookup_s(v, d, name) == Err::<
            u32,
            FsError,
        >(FsError::NotDirectory) && dir_list_s(v, d) is Err,
{
    if let Ok(i) = open_dir_s(v, d) {
        lemma_lookup_in_list(v.disk, i, name, 0, i.size as int / 64);
    }
}

} // verus!
