//! What the headers of a program file say.

use super::{dynamic_s, header_at, parse_s, segments_s, Segment};
use crate::bytes::{get16, lemma_numbers, number};
use vstd::prelude::*;

verus! {

/// Where the `i`th program header is: 56 bytes each, from the offset in bytes 32 to 39.
pub open spec fn program_header(data: Seq<u8>, i: int) -> int {
    number(data, 32, 8) + 56 * i
}

/// How many program headers there are.
pub open spec fn header_count(data: Seq<u8>) -> int {
    number(data, 56, 2)
}

/// What a program header is for: 1 for a loadable segment, 2 for the dynamic section.
pub open spec fn purpose(data: Seq<u8>, i: int) -> int {
    number(data, program_header(data, i), 4)
}

/// How many of the first `i` program headers are for loadable segments.
pub open spec fn loadable_before(data: Seq<u8>, i: int) -> int
    decreases i,
{
    if i <= 0 {
        0
    } else {
        loadable_before(data, i - 1) + (if purpose(data, i - 1) == 1 {
            1int
        } else {
            0
        })
    }
}

/// A segment is as a program header says.
pub open spec fn describes(data: Seq<u8>, i: int, s: Segment) -> bool {
    let at = program_header(data, i);
    &&& s.flags == number(data, at + 4, 4)
    &&& s.offset == number(data, at + 8, 8)
    &&& s.vaddr == number(data, at + 16, 8)
    &&& s.filesz == number(data, at + 32, 8)
    &&& s.memsz == number(data, at + 40, 8)
}

/// A file is taken for a program exactly if it begins with 7Fh and the letters ELF, is of
/// 64 bits with the low byte first, is an executable or a shared object (2 or 3) for x86-64
/// (62), and holds all its program headers.
pub proof fn law_programs_are_known_by_their_header(data: Seq<u8>)
    ensures
        parse_s(data) is Ok <==> {
            &&& data.len() >= 64
            &&& data[0] == 0x7f && data[1] == 'E' as int && data[2] == 'L' as int && data[3]
                == 'F' as int
            &&& data[4] == 2 && data[5] == 1
            &&& number(data, 16, 2) == 2 || number(data, 16, 2) == 3
            &&& number(data, 18, 2) == 62
            &&& header_count(data) == 0 || program_header(data, header_count(data)) <= data.len()
        },
        parse_s(data) matches Ok(e) ==> e.entry == number(data, 24, 8) && (e.is_dynamic <==> number(
            data,
            16,
            2,
        ) == 3),
{
    lemma_numbers(data, 16);
    lemma_numbers(data, 18);
    lemma_numbers(data, 24);
    lemma_numbers(data, 32);
    lemma_numbers(data, 56);
    if data.len() >= 64 {
        let m = seq![0x7fu8, 0x45u8, 0x4cu8, 0x46u8];
        let h = data.subrange(0, 4);
        assert(m[0] == 0x7f && m[1] == 0x45 && m[2] == 0x4c && m[3] == 0x46);
        assert(h[0] == data[0] && h[1] == data[1] && h[2] == data[2] && h[3] == data[3]);
        if data[0] == 0x7f && data[1] == 0x45 && data[2] == 0x4c && data[3] == 0x46 {
            assert(h =~= m);
        }
    }
}

/// The segments of a program are those that its loadable program headers describe, in the
/// order of the headers.
pub proof fn law_segments_are_those_of_the_headers(data: Seq<u8>, i: int)
    requires
        parse_s(data) is Ok,
        0 <= i < header_count(data),
    ensures
        parse_s(data)->Ok_0.segments.len() == loadable_before(data, header_count(data)),
        purpose(data, i) == 1 ==> 0 <= loadable_before(data, i) < loadable_before(
            data,
            header_count(data),
        ) && describes(
            data,
            i,
            parse_s(data)->Ok_0.segments[loadable_before(data, i)],
        ),
{
    lemma_numbers(data, 56);
    lemma_segments(data, get16(data, 56) as nat, i);
}

proof fn lemma_segments(data: Seq<u8>, n: nat, i: int)
    requires
        0 <= i < n,
    ensures
        segments_s(data, n).len() == loadable_before(data, n as int),
        purpose(data, i) == 1 ==> 0 <= loadable_before(data, i) < loadable_before(data, n as int)
            && describes(data, i, segments_s(data, n)[loadable_before(data, i)]),
    decreases n,
{
    let m = (n - 1) as nat;
    lemma_numbers(data, 32);
    let at = header_at(data, m as int);
    assert(at == program_header(data, m as int));
    lemma_numbers(data, at);
    lemma_numbers(data, at + 4);
    lemma_numbers(data, at + 8);
    lemma_numbers(data, at + 16);
    lemma_numbers(data, at + 32);
    lemma_numbers(data, at + 40);
    lemma_segments_len(data, m);
    if i < m {
        lemma_segments(data, m, i);
    }
}

proof fn lemma_segments_len(data: Seq<u8>, n: nat)
    ensures
        segments_s(data, n).len() == loadable_before(data, n as int),
    decreases n,
{
    if n > 0 {
        lemma_segments_len(data, (n - 1) as nat);
        lemma_numbers(data, 32);
        lemma_numbers(data, header_at(data, n - 1));
    }
}

/// The dynamic section is where the last program header for one says.
pub proof fn law_dynamic_section_is_the_last(data: Seq<u8>, n: nat, i: int)
    requires
        0 <= i < n,
        purpose(data, i) == 2,
        forall|j: int| i < j < n ==> #[trigger] purpose(data, j) != 2,
    ensures
        dynamic_s(data, n) matches Some((start, size)) && start == number(
            data,
            program_header(data, i) + 8,
            8,
        ) && size == number(data, program_header(data, i) + 32, 8),
    decreases n,
{
    let m = (n - 1) as nat;
    lemma_numbers(data, 32);
    let at = header_at(data, m as int);
    assert(at == program_header(data, m as int));
    lemma_numbers(data, at);
    lemma_numbers(data, at + 8);
    lemma_numbers(data, at + 32);
    if i < m {
        assert(purpose(data, m as int) != 2);
        law_dynamic_section_is_the_last(data, m, i);
    }
}

/// Without a program header for one, there is no dynamic section.
pub proof fn law_no_dynamic_section(data: Seq<u8>, n: nat)
    requires
        forall|j: int| 0 <= j < n ==> #[trigger] purpose(data, j) != 2,
    ensures
        dynamic_s(data, n) is None,
    decreases n,
{
    if n > 0 {
        lemma_numbers(data, 32);
        lemma_numbers(data, header_at(data, n - 1));
        assert(purpose(data, n - 1) != 2);
        law_no_dynamic_section(data, (n - 1) as nat);
    }
}

} // verus!
