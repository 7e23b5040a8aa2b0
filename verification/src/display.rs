//! What drawing a sprite does to the framebuffer.
//!
//! A sprite is a run of memory bytes, one per row, the most significant bit
//! leftmost. It is combined with the framebuffer by exclusive or, and
//! coordinates wrap around both edges of the screen.

use vstd::prelude::*;

verus! {

/// Whether the sprite row `byte` has its pixel in column `col` set. Column
/// 0, the leftmost, is the most significant bit.
pub open spec fn sprite_bit(byte: u8, col: int) -> bool {
    byte & (0x80u8 >> (col as u8)) != 0
}

/// Whether the sprite of `rows` rows that starts at `ram[i]`, drawn with its
/// top left corner at `(vx, vy)`, has a set pixel on the cell `(cx, cy)`.
///
/// The cell lies `(cx - vx) mod 64` columns to the right of the corner and
/// `(cy - vy) mod 32` rows below it, which is where wrapping around the
/// screen's edges comes in.
pub open spec fn sprite_covers(
    ram: Seq<u8>,
    i: int,
    vx: int,
    vy: int,
    rows: int,
    cx: int,
    cy: int,
) -> bool {
    let col = (cx - vx) % 64;
    let row = (cy - vy) % 32;
    col < 8 && row < rows && sprite_bit(ram[i + row], col)
}

/// Whether the sprite has a set pixel on the cell with index `k`, which is
/// the cell `(k mod 64, k / 64)`.
pub open spec fn cell_covered(ram: Seq<u8>, i: int, vx: int, vy: int, rows: int, k: int) -> bool {
    sprite_covers(ram, i, vx, vy, rows, k % 64, k / 64)
}

/// The framebuffer after the sprite has been drawn: every cell the sprite
/// covers is toggled, every other cell is kept.
pub open spec fn draw_spec(
    display: Seq<bool>,
    ram: Seq<u8>,
    i: int,
    vx: int,
    vy: int,
    rows: int,
) -> Seq<bool> {
    Seq::new(2048, |k: int| display[k] != cell_covered(ram, i, vx, vy, rows, k))
}

/// Whether drawing the sprite turns off a cell that was on.
pub open spec fn draw_collides(
    display: Seq<bool>,
    ram: Seq<u8>,
    i: int,
    vx: int,
    vy: int,
    rows: int,
) -> bool {
    exists|k: int| 0 <= k < 2048 && #[trigger] display[k] && cell_covered(ram, i, vx, vy, rows, k)
}

/// Like [`sprite_covers`], for a sprite of which `rows` whole rows and the
/// first `cols` columns of the next row count.
pub open spec fn sprite_covers_upto(
    ram: Seq<u8>,
    i: int,
    vx: int,
    vy: int,
    rows: int,
    cols: int,
    cx: int,
    cy: int,
) -> bool {
    let col = (cx - vx) % 64;
    let row = (cy - vy) % 32;
    col < 8 && sprite_bit(ram[i + row], col) && (row < rows || (row == rows && col < cols))
}

/// Like [`cell_covered`], for a sprite of which `rows` whole rows and the
/// first `cols` columns of the next row count.
pub open spec fn cell_covered_upto(
    ram: Seq<u8>,
    i: int,
    vx: int,
    vy: int,
    rows: int,
    cols: int,
    k: int,
) -> bool {
    sprite_covers_upto(ram, i, vx, vy, rows, cols, k % 64, k / 64)
}

/// The cell that lies `col` columns right of and `row` rows below
/// `(vx, vy)`, wrapping at the edges, is the only one whose offsets from
/// the corner are `col` and `row`.
pub proof fn lemma_cell_offsets(vx: int, vy: int, row: int, col: int, k: int)
    requires
        0 <= col < 64,
        0 <= row < 32,
        0 <= vx,
        0 <= vy,
        0 <= k < 2048,
    ensures
        k == (vx + col) % 64 + 64 * ((vy + row) % 32) <==> ((k % 64 - vx) % 64 == col && (k / 64
            - vy) % 32 == row),
{
}

/// The index of the cell that lies `col` columns right of and `row` rows
/// below `(vx, vy)`, wrapping at the edges.
pub open spec fn cell_index(vx: int, vy: int, row: int, col: int) -> int {
    (vx + col) % 64 + 64 * ((vy + row) % 32)
}

/// Counting one more column of the current row adds exactly the cell under
/// that column, and only if the sprite has a pixel there.
pub proof fn lemma_next_column(
    ram: Seq<u8>,
    i: int,
    vx: int,
    vy: int,
    row: int,
    col: int,
    k: int,
)
    requires
        0 <= col < 8,
        0 <= row < 32,
        0 <= vx,
        0 <= vy,
        0 <= k < 2048,
    ensures
        cell_covered_upto(ram, i, vx, vy, row, col + 1, k) == (cell_covered_upto(
            ram,
            i,
            vx,
            vy,
            row,
            col,
            k,
        ) || (k == cell_index(vx, vy, row, col) && sprite_bit(ram[i + row], col))),
        k == cell_index(vx, vy, row, col) ==> !cell_covered_upto(ram, i, vx, vy, row, col, k),
{
    lemma_cell_offsets(vx, vy, row, col, k);
}

/// One step of drawing: if the framebuffer `shown` and the flag `hit`
/// account for the sprite up to column `col` of row `row`, then after the
/// pixel in that column has been applied they account for it up to the next
/// column.
pub proof fn lemma_draw_pixel(
    before: Seq<bool>,
    shown: Seq<bool>,
    hit: bool,
    ram: Seq<u8>,
    i: int,
    vx: int,
    vy: int,
    row: int,
    col: int,
)
    requires
        before.len() == 2048,
        shown.len() == 2048,
        0 <= col < 8,
        0 <= row < 32,
        0 <= vx,
        0 <= vy,
        forall|k: int|
            0 <= k < 2048 ==> shown[k] == (before[k] != cell_covered_upto(
                ram,
                i,
                vx,
                vy,
                row,
                col,
                k,
            )),
        hit == (exists|k: int|
            0 <= k < 2048 && #[trigger] before[k] && cell_covered_upto(
                ram,
                i,
                vx,
                vy,
                row,
                col,
                k,
            )),
    ensures
        ({
            let cell = cell_index(vx, vy, row, col);
            let lit = sprite_bit(ram[i + row], col);
            let after = if lit {
                shown.update(cell, !shown[cell])
            } else {
                shown
            };
            &&& 0 <= cell < 2048
            &&& forall|k: int|
                0 <= k < 2048 ==> after[k] == (before[k] != cell_covered_upto(
                    ram,
                    i,
                    vx,
                    vy,
                    row,
                    col + 1,
                    k,
                ))
            &&& (hit || (lit && shown[cell])) == (exists|k: int|
                0 <= k < 2048 && #[trigger] before[k] && cell_covered_upto(
                    ram,
                    i,
                    vx,
                    vy,
                    row,
                    col + 1,
                    k,
                ))
        }),
{
    let cell = cell_index(vx, vy, row, col);
    let lit = sprite_bit(ram[i + row], col);
    let next: int = col + 1;
    assert forall|k: int| 0 <= k < 2048 implies (#[trigger] cell_covered_upto(
        ram,
        i,
        vx,
        vy,
        row,
        next,
        k,
    ) == (cell_covered_upto(ram, i, vx, vy, row, col, k) || (k == cell && lit))) by {
        lemma_next_column(ram, i, vx, vy, row, col, k);
    }
    lemma_next_column(ram, i, vx, vy, row, col, cell);
    assert(shown[cell] == before[cell]);
    if hit {
        let w = choose|k: int|
            0 <= k < 2048 && #[trigger] before[k] && cell_covered_upto(ram, i, vx, vy, row, col, k);
        assert(before[w] && cell_covered_upto(ram, i, vx, vy, row, next, w));
    }
    if lit && shown[cell] {
        assert(before[cell] && cell_covered_upto(ram, i, vx, vy, row, next, cell));
    }
}

} // verus!
