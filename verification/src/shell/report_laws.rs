//! What the shell's reports show.

use crate::shell::report::{dump_cell, dump_row, hex_field};
use crate::text::{digit, flat, hex, numeral};
use vstd::prelude::*;

verus! {

/// The number of a character that stands for a digit below 16.
pub open spec fn digit_code(d: int) -> int {
    if d < 10 {
        '0' as int + d
    } else {
        'a' as int + d - 10
    }
}

/// A row of a dump shows sixteen bytes at most: each as two digits, the upper half first,
/// with a blank behind them and one more in the middle of the row; and behind a bar each as
/// a character, or as a dot if it is none that can be seen.
#[verifier::rlimit(40)]
#[verifier::spinoff_prover]
pub proof fn law_dumps_show_every_byte(off: int, row: Seq<u8>, j: int)
    requires
        0 <= off < 0x1_0000,
        row.len() <= 16,
        0 <= j < row.len(),
    ensures
        ({
            let t = dump_row(off, row);
            let at = 8 + 3 * j + (if j > 7 {
                1int
            } else {
                0
            });
            &&& t.len() == 61 + row.len()
            &&& t[at] as int == digit_code(row[j] as int / 16)
            &&& t[at + 1] as int == digit_code(row[j] as int % 16)
            &&& t[at + 2] == ' '
            &&& t[58] == '|'
            &&& t[59 + j] as int == (if 0x20 <= row[j] < 0x7f {
                row[j] as int
            } else {
                '.' as int
            })
        }),
{
    reveal_strlit("  ");
    reveal_strlit(": ");
    reveal_strlit(" |");
    reveal_strlit("|\n");
    let cells = Seq::new(16, |k: int| dump_cell(row, k));
    lemma_cells(row, 16, j);
    assert(cells.take(16) =~= cells);
    lemma_hex4(off as nat);
    let head = "  "@ + hex_field(off as nat, 4) + ": "@;
    assert(head.len() == 8);
    let body = flat(cells);
    assert(body.len() == 49);
    let chars = row.map_values(|b: u8| crate::shell::report::shown(b));
    let t = dump_row(off, row);
    assert(t =~= head + body + " |"@ + chars + "|\n"@);
    let at = 3 * j + (if j > 7 {
        1int
    } else {
        0
    });
    assert(t[8 + at] == body[at] && t[8 + at + 1] == body[at + 1] && t[8 + at + 2] == body[at + 2]);
    assert(" |"@[1] == '|');
    assert(t[58] == " |"@[1]);
    assert(t[59 + j] == chars[j]);
    lemma_cell(row, j);
}

proof fn lemma_hex2(b: nat)
    requires
        b < 256,
    ensures
        hex_field(b, 2).len() == 2,
        hex_field(b, 2)[0] == digit(b as int / 16),
        hex_field(b, 2)[1] == digit(b as int % 16),
{
    reveal_with_fuel(numeral, 3);
    assert(digit(0) == '0');
    if b < 16 {
        assert(hex(b) =~= seq![digit(b as int)]);
    } else {
        assert(b / 16 < 16);
        assert(hex(b) =~= seq![digit(b as int / 16), digit(b as int % 16)]);
    }
}

proof fn lemma_hex4(n: nat)
    requires
        n < 0x1_0000,
    ensures
        hex_field(n, 4).len() == 4,
{
    reveal_with_fuel(numeral, 5);
    assert(n / 16 < 0x1000 && n / 16 / 16 < 0x100 && n / 16 / 16 / 16 < 0x10);
    assert(1 <= hex(n).len() <= 4);
}

proof fn lemma_cell(row: Seq<u8>, j: int)
    requires
        0 <= j < 16,
    ensures
        dump_cell(row, j).len() == (if j == 7 {
            4int
        } else {
            3
        }),
        j < row.len() ==> dump_cell(row, j)[0] == digit(row[j] as int / 16) && dump_cell(row, j)[1]
            == digit(row[j] as int % 16) && dump_cell(row, j)[2] == ' ',
{
    reveal_strlit(" ");
    reveal_strlit("   ");
    assert(" "@[0] == ' ');
    if j < row.len() {
        lemma_hex2(row[j] as nat);
    }
}

proof fn lemma_cells(row: Seq<u8>, n: int, j: int)
    requires
        0 <= j < n <= 16,
    ensures
        ({
            let cells = Seq::new(16, |k: int| dump_cell(row, k));
            let t = flat(cells.take(n));
            let at = 3 * j + (if j > 7 {
                1int
            } else {
                0
            });
            &&& t.len() == 3 * n + (if n > 7 {
                1int
            } else {
                0
            })
            &&& t[at] == dump_cell(row, j)[0]
            &&& t[at + 1] == dump_cell(row, j)[1]
            &&& t[at + 2] == dump_cell(row, j)[2]
        }),
    decreases n,
{
    let cells = Seq::new(16, |k: int| dump_cell(row, k));
    let before = flat(cells.take(n - 1));
    lemma_cell(row, n - 1);
    lemma_cell(row, j);
    assert(cells.take(n).drop_last() =~= cells.take(n - 1));
    assert(cells.take(n).last() == dump_cell(row, n - 1));
    assert(flat(cells.take(n)) == before + dump_cell(row, n - 1));
    if n == 1 {
        assert(before =~= Seq::<char>::empty());
    } else if j < n - 1 {
        lemma_cells(row, n - 1, j);
    } else {
        lemma_cells(row, n - 1, n - 2);
    }
}

} // verus!
