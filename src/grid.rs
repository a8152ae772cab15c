use vstd::prelude::*;

verus! {

/// The width of a grid of `size` rows: `size` rounded up to an even number.
pub open spec fn width_of(size: nat) -> nat {
    size + size % 2
}

/// The number of columns of each row that are drawn; the rest mirror them.
pub open spec fn half_of(size: nat) -> nat {
    width_of(size) / 2
}

/// The number of draws that a grid of `size` rows takes.
pub open spec fn draws_of(size: nat) -> nat {
    size * half_of(size)
}

/// The drawn column that column `c` of a row of width `w` copies.
pub open spec fn source_column(w: nat, c: nat) -> nat {
    if c < w / 2 {
        c
    } else {
        (w - 1 - c) as nat
    }
}

/// The palette index of the block at row `r` and column `c`: the draws are
/// taken row by row, `half_of(size)` of them per row, and a block is in the
/// foreground (index 1) when its draw came out true.
pub open spec fn cell(size: nat, bits: Seq<bool>, r: nat, c: nat) -> u8 {
    if bits[(r * half_of(size) + source_column(width_of(size), c)) as int] {
        1
    } else {
        0
    }
}

/// The whole grid is given by `cell` in row-major order.
pub open spec fn is_grid(size: nat, bits: Seq<bool>, pixels: Seq<u8>) -> bool {
    &&& pixels.len() == size * width_of(size)
    &&& forall|r: nat, c: nat|
        r < size && c < width_of(size) ==> #[trigger] pixels[(r * width_of(size) + c) as int]
            == cell(size, bits, r, c)
}

/// The grid itself: the palette index of each block, row-major.
pub open spec fn grid_of(size: nat, bits: Seq<bool>) -> Seq<u8> {
    let w = width_of(size);
    Seq::new(size * w, |j: int| cell(size, bits, (j / w as int) as nat, (j % w as int) as nat))
}

/// A sequence laid out as `is_grid` says is the grid.
proof fn lemma_grid_of(size: nat, bits: Seq<bool>, pixels: Seq<u8>)
    requires
        is_grid(size, bits, pixels),
    ensures
        pixels == grid_of(size, bits),
{
    let w = width_of(size);
    assert forall|j: int| 0 <= j < pixels.len() implies pixels[j] == grid_of(size, bits)[j] by {
        assert(w > 0) by (nonlinear_arith)
            requires
                0 <= j < size * w,
        ;
        vstd::arithmetic::div_mod::lemma_fundamental_div_mod(j, w as int);
        let r = j / w as int;
        let c = j % w as int;
        assert(0 <= c < w);
        assert(0 <= r < size) by (nonlinear_arith)
            requires
                j == w * r + c,
                0 <= c < w,
                0 <= j < size * w,
        ;
        assert(pixels[(r as nat * w + c as nat) as int] == cell(size, bits, r as nat, c as nat));
        assert(r as nat * w + c as nat == j) by (nonlinear_arith)
            requires
                j == w * r + c,
                r >= 0,
                c >= 0,
        ;
    }
    assert(pixels =~= grid_of(size, bits));
}

/// Every row of the grid built from a full set of draws reads the same from
/// the left as from the right.
pub proof fn lemma_grid_mirror(size: nat, bits: Seq<bool>, r: nat, c: nat)
    requires
        bits.len() == draws_of(size),
        r < size,
        c < width_of(size),
    ensures
        grid_of(size, bits)[(r * width_of(size) + c) as int] == grid_of(size, bits)[(r
            * width_of(size) + (width_of(size) - 1 - c)) as int],
{
    let w = width_of(size);
    let m = (w - 1 - c) as nat;
    lemma_cell_index(size, r, c);
    lemma_cell_index(size, r, m);
    assert(source_column(w, m) == source_column(w, c));
}

proof fn lemma_cell_index(size: nat, r: nat, c: nat)
    requires
        r < size,
        c < width_of(size),
    ensures
        0 <= r * width_of(size) + c < size * width_of(size),
        (r * width_of(size) + c) as int / width_of(size) as int == r,
        (r * width_of(size) + c) as int % width_of(size) as int == c,
{
    let w = width_of(size);
    lemma_row_index(size, w, r, c);
    vstd::arithmetic::div_mod::lemma_fundamental_div_mod_converse(
        (r * w + c) as int,
        w as int,
        r as int,
        c as int,
    );
}

/// The width of a grid of `size` rows.
pub fn effective_width(size: usize) -> (r: usize)
    requires
        size < usize::MAX,
    ensures
        r == width_of(size as nat),
{
    size + size % 2
}

/// The number of draws that a grid of `size` rows takes.
pub fn grid_draw_count(size: usize) -> (r: usize)
    requires
        size * width_of(size as nat) <= usize::MAX,
    ensures
        r == draws_of(size as nat),
{
    proof {
        lemma_width_fits(size as nat);
    }
    let w: usize = size + size % 2;
    assert(size * half_of(size as nat) <= size * w) by (nonlinear_arith)
        requires
            half_of(size as nat) <= w,
    ;
    size * (w / 2)
}

/// A grid takes one draw for each pair of mirrored blocks.
pub proof fn lemma_draws_half(size: nat)
    ensures
        draws_of(size) * 2 == size * width_of(size),
{
    let w = width_of(size);
    assert(half_of(size) * 2 == w);
    assert(size * half_of(size) * 2 == size * (half_of(size) * 2)) by (nonlinear_arith);
}

proof fn lemma_width_fits(size: nat)
    requires
        size * width_of(size) <= usize::MAX,
    ensures
        width_of(size) <= usize::MAX,
{
    if size > 0 {
        assert(width_of(size) <= size * width_of(size)) by (nonlinear_arith)
            requires
                size > 0,
        ;
    }
}

proof fn lemma_row_index(size: nat, half: nat, r: nat, m: nat)
    requires
        r < size,
        m < half,
    ensures
        r * half + m < size * half,
{
    assert(r * half + m < size * half) by (nonlinear_arith)
        requires
            r < size,
            m < half,
    ;
}

/// Builds the mirrored grid of palette indices, row-major, from the draws in
/// the order in which they were taken.
pub fn create_image_data(size: usize, bits: &Vec<bool>) -> (r: Vec<u8>)
    requires
        size * width_of(size as nat) <= usize::MAX,
        bits@.len() == draws_of(size as nat),
    ensures
        r@ == grid_of(size as nat, bits@),
{
    proof {
        lemma_width_fits(size as nat);
    }
    let w: usize = size + size % 2;
    let half: usize = w / 2;
    let nbits: usize = bits.len();
    let mut pixels: Vec<u8> = Vec::new();
    let mut row: usize = 0;
    while row < size
        invariant
            w == width_of(size as nat),
            half == half_of(size as nat),
            size * w <= usize::MAX,
            bits@.len() == size * half,
            nbits == bits@.len(),
            row <= size,
            pixels@.len() == row * w,
            forall|r: nat, c: nat|
                r < row && c < w ==> #[trigger] pixels@[(r * w + c) as int] == cell(
                    size as nat,
                    bits@,
                    r,
                    c,
                ),
        decreases size - row,
    {
        let ghost start = pixels@.len();
        let mut col: usize = 0;
        while col < w
            invariant
                w == width_of(size as nat),
                half == half_of(size as nat),
                size * w <= usize::MAX,
                bits@.len() == size * half,
                nbits == bits@.len(),
                row < size,
                col <= w,
                start == row * w,
                pixels@.len() == start + col,
                forall|r: nat, c: nat|
                    r < row && c < w ==> #[trigger] pixels@[(r * w + c) as int] == cell(
                        size as nat,
                        bits@,
                        r,
                        c,
                    ),
                forall|c: nat| c < col ==> #[trigger] pixels@[(start + c) as int] == cell(
                    size as nat,
                    bits@,
                    row as nat,
                    c,
                ),
            decreases w - col,
        {
            let m: usize = if col < half {
                col
            } else {
                w - 1 - col
            };
            proof {
                lemma_row_index(size as nat, half as nat, row as nat, m as nat);
            }
            let v: u8 = if bits[row * half + m] {
                1
            } else {
                0
            };
            let ghost before = pixels@;
            pixels.push(v);
            proof {
                assert forall|r: nat, c: nat| r < row && c < w implies #[trigger] pixels@[(r * w
                    + c) as int] == cell(size as nat, bits@, r, c) by {
                    lemma_row_index(row as nat, w as nat, r, c);
                    assert(pixels@[(r * w + c) as int] == before[(r * w + c) as int]);
                }
            }
            col = col + 1;
        }
        proof {
            assert((row + 1) * w == row * w + w) by (nonlinear_arith);
            assert forall|r: nat, c: nat| r < row + 1 && c < w implies #[trigger] pixels@[(r * w
                + c) as int] == cell(size as nat, bits@, r, c) by {
                if r == row {
                    assert(pixels@[(start + c) as int] == cell(size as nat, bits@, row as nat, c));
                }
            }
        }
        row = row + 1;
    }
    proof {
        lemma_grid_of(size as nat, bits@, pixels@);
    }
    pixels
}

} // verus!
