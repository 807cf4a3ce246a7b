//! Inner products of two affine byte patterns over a square grid, XORed into
//! a checksum.

use vstd::prelude::*;
use vstd::arithmetic::div_mod::lemma_mod_multiples_vanish;
use crate::word::{lemma_low64_add, lemma_low64_mul, lemma_low64_of_word, low64};

verus! {

/// The multiplier that spreads a cell's position over the word.
pub const POSITION_MULTIPLIER: u64 = 2_654_435_761;

/// The byte at (`row`, `k`) of the left pattern.
pub open spec fn left_entry(row: nat, k: nat) -> nat {
    (row * 131 + k * 17 + 13) % 256
}

/// The byte at (`k`, `col`) of the right pattern.
pub open spec fn right_entry(k: nat, col: nat) -> nat {
    (k * 19 + col * 97 + 53) % 256
}

/// The inner product of row `row` of the left pattern and column `col` of the
/// right pattern over their first `len` entries.
pub open spec fn inner_product(row: nat, col: nat, len: nat) -> nat
    decreases len,
{
    if len == 0 {
        0
    } else {
        inner_product(row, col, (len - 1) as nat) + left_entry(row, (len - 1) as nat)
            * right_entry((len - 1) as nat, col)
    }
}

/// What the cell at (`row`, `col`) of an `n` by `n` grid contributes: its
/// inner product plus its row-major position times the multiplier, modulo
/// 2^64.
pub open spec fn cell_value(n: nat, row: nat, col: nat) -> u64 {
    low64(inner_product(row, col, n) + (row * n + col) * POSITION_MULTIPLIER as nat)
}

/// The XOR of the first `cols` cells of row `row`.
pub open spec fn row_fold(n: nat, row: nat, cols: nat) -> u64
    decreases cols,
{
    if cols == 0 {
        0
    } else {
        row_fold(n, row, (cols - 1) as nat) ^ cell_value(n, row, (cols - 1) as nat)
    }
}

/// The XOR of all cells of the first `rows` rows.
pub open spec fn grid_fold(n: nat, rows: nat) -> u64
    decreases rows,
{
    if rows == 0 {
        0
    } else {
        grid_fold(n, (rows - 1) as nat) ^ row_fold(n, (rows - 1) as nat, n)
    }
}

/// The result of the kernel for an `n` by `n` grid.
pub open spec fn affine_grid(n: nat) -> u64 {
    grid_fold(n, n)
}

/// Reducing `x` and `y` modulo 256 first leaves `x * p + y * q + c` modulo 256
/// unchanged.
proof fn lemma_reduced_indices(x: nat, y: nat, p: nat, q: nat, c: nat)
    ensures
        ((x % 256) * p + (y % 256) * q + c) % 256 == (x * p + y * q + c) % 256,
{
    let reduced = (x % 256) * p + (y % 256) * q + c;
    let multiple = (x / 256) * p + (y / 256) * q;
    assert(x * p + y * q + c == 256 * multiple + reduced) by (nonlinear_arith)
        requires
            x == 256 * (x / 256) + x % 256,
            y == 256 * (y / 256) + y % 256,
            reduced == (x % 256) * p + (y % 256) * q + c,
            multiple == (x / 256) * p + (y / 256) * q,
    ;
    lemma_mod_multiples_vanish(multiple as int, reduced as int, 256);
}

/// The inner product of one cell over all `n` entries, modulo 2^64.
fn cell_inner_product(n: usize, row: usize, col: usize) -> (acc: u64)
    ensures
        acc == low64(inner_product(row as nat, col as nat, n as nat)),
{
    let mut acc: u64 = 0;
    let mut k: usize = 0;
    while k < n
        invariant
            k <= n,
            acc == low64(inner_product(row as nat, col as nat, k as nat)),
        decreases n - k,
    {
        let a: u64 = (((row % 256) * 131 + (k % 256) * 17 + 13) % 256) as u64;
        let b: u64 = (((k % 256) * 19 + (col % 256) * 97 + 53) % 256) as u64;
        proof {
            lemma_reduced_indices(row as nat, k as nat, 131, 17, 13);
            lemma_reduced_indices(k as nat, col as nat, 19, 97, 53);
            assert(a * b <= 255 * 255) by (nonlinear_arith)
                requires
                    a <= 255,
                    b <= 255,
            ;
            lemma_low64_of_word((a * b) as u64);
            lemma_low64_add(inner_product(row as nat, col as nat, k as nat), (a * b) as nat);
        }
        acc = acc.wrapping_add(a * b);
        k += 1;
    }
    acc
}

/// Computes the checksum of the `n` by `n` grid.
pub fn run_affine_grid(n: usize) -> (result: u64)
    ensures
        result == affine_grid(n as nat),
        n == 0 ==> result == 0,
{
    let mut checksum: u64 = 0;
    let mut row: usize = 0;
    while row < n
        invariant
            row <= n,
            checksum == grid_fold(n as nat, row as nat),
        decreases n - row,
    {
        let ghost before = checksum;
        let mut col: usize = 0;
        assert(before ^ 0u64 == before) by (bit_vector);
        while col < n
            invariant
                col <= n,
                row < n,
                checksum == before ^ row_fold(n as nat, row as nat, col as nat),
            decreases n - col,
        {
            let acc: u64 = cell_inner_product(n, row, col);
            let index: u64 = (row as u64).wrapping_mul(n as u64).wrapping_add(col as u64);
            let cell: u64 = acc.wrapping_add(index.wrapping_mul(POSITION_MULTIPLIER));
            proof {
                let position = row as nat * n as nat + col as nat;
                lemma_low64_of_word(row as u64);
                lemma_low64_of_word(n as u64);
                lemma_low64_of_word(col as u64);
                lemma_low64_of_word(POSITION_MULTIPLIER);
                lemma_low64_mul(row as nat, n as nat);
                lemma_low64_add(row as nat * n as nat, col as nat);
                lemma_low64_mul(position, POSITION_MULTIPLIER as nat);
                lemma_low64_add(
                    inner_product(row as nat, col as nat, n as nat),
                    position * POSITION_MULTIPLIER as nat,
                );
                let folded = row_fold(n as nat, row as nat, col as nat);
                assert((before ^ folded) ^ cell == before ^ (folded ^ cell)) by (bit_vector);
            }
            checksum ^= cell;
            col += 1;
        }
        row += 1;
    }
    checksum
}

} // verus!
