//! Hex dumps of words: rows of `ADDR: w1 w2 ... wN`, four upper-case hex
//! digits each.
use vstd::prelude::*;
use vstd::string::StringExecFns;

use crate::hex::{append_hex, hex_text};
use crate::Word;

verus! {

/// ` w` for each of the `n` words from `start` on.
pub open spec fn row_words_text(words: Seq<Word>, start: int, n: int) -> Seq<char>
    decreases n,
{
    if n <= 0 {
        Seq::empty()
    } else {
        row_words_text(words, start, n - 1) + " "@ + hex_text(words[start + n - 1], 4, true)
    }
}

/// The row of the `n` words from `start` on.
pub open spec fn row_text(words: Seq<Word>, start: int, n: int) -> Seq<char> {
    hex_text(start as Word, 4, true) + ":"@ + row_words_text(words, start, n) + "\n"@
}

/// The rows from `start` on, `per_row` words each; the last may be shorter.
pub open spec fn dump_text(words: Seq<Word>, per_row: nat, start: int) -> Seq<char>
    decreases words.len() - start,
{
    if per_row == 0 || start < 0 || start >= words.len() {
        Seq::empty()
    } else {
        let n = if words.len() - start < per_row {
            words.len() - start
        } else {
            per_row as int
        };
        if start + per_row >= words.len() {
            row_text(words, start, n)
        } else {
            row_text(words, start, n) + dump_text(words, per_row, start + per_row)
        }
    }
}

/// Dumps `words` in rows of `words_per_row`.
pub fn hexdump_words(words: &[Word], words_per_row: usize) -> (r: String)
    requires
        words_per_row > 0,
        words@.len() <= 0x10000,
    ensures
        r@ == dump_text(words@, words_per_row as nat, 0),
{
    let mut dump = String::new();
    let mut row_start: usize = 0;
    while row_start < words.len()
        invariant
            words_per_row > 0,
            words@.len() <= 0x10000,
            row_start <= words@.len() + words_per_row,
            row_start < words@.len() ==> dump_text(words@, words_per_row as nat, 0) == dump@ + dump_text(
                words@,
                words_per_row as nat,
                row_start as int,
            ),
            row_start >= words@.len() ==> dump_text(words@, words_per_row as nat, 0) == dump@,
        decreases words@.len() - row_start,
    {
        let n = if words.len() - row_start < words_per_row {
            words.len() - row_start
        } else {
            words_per_row
        };
        let ghost base = dump@;
        append_hex(&mut dump, row_start as Word, 4, true);
        dump.append(":");
        let mut j: usize = 0;
        while j < n
            invariant
                j <= n,
                row_start < words@.len() <= 0x10000,
                row_start + n <= words@.len(),
                dump@ == base + hex_text(row_start as Word, 4, true) + ":"@ + row_words_text(
                    words@,
                    row_start as int,
                    j as int,
                ),
            decreases n - j,
        {
            dump.append(" ");
            append_hex(&mut dump, words[row_start + j], 4, true);
            proof {
                assert(dump@ =~= base + hex_text(row_start as Word, 4, true) + ":"@ + row_words_text(
                    words@,
                    row_start as int,
                    j + 1,
                ));
            }
            j = j + 1;
        }
        dump.append("\n");
        proof {
            assert(dump@ =~= base + row_text(words@, row_start as int, n as int));
            let rest = dump_text(words@, words_per_row as nat, row_start + words_per_row);
            assert(base + row_text(words@, row_start as int, n as int) + rest =~= base + (row_text(
                words@,
                row_start as int,
                n as int,
            ) + rest));
            if row_start + words_per_row < words@.len() {
                assert(dump_text(words@, words_per_row as nat, row_start as int) == row_text(
                    words@,
                    row_start as int,
                    n as int,
                ) + rest);
            }
        }
        if words.len() - row_start <= words_per_row {
            row_start = words.len();
        } else {
            row_start = row_start + words_per_row;
        }
    }
    dump
}

} // verus!
