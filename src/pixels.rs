use vstd::prelude::*;
use vstd::arithmetic::div_mod::{lemma_fundamental_div_mod, lemma_fundamental_div_mod_converse};

verus! {

/// Index of the first byte of pixel `(x, y)` in a buffer of `tw` by `th`
/// pixels whose rows run from the top (`y == th - 1`) down to `y == 0`.
pub open spec fn buffer_index(tw: int, th: int, x: int, y: int) -> int {
    ((th - 1 - y) * tw + x) * 4
}

/// The column of the pixel that byte `k` belongs to.
pub open spec fn byte_x(tw: int, k: int) -> int {
    (k / 4) % tw
}

/// The row, counted upwards, of the pixel that byte `k` belongs to.
pub open spec fn byte_y(tw: int, th: int, k: int) -> int {
    th - 1 - (k / 4) / tw
}

/// The channel (R, G, B or A) that byte `k` holds.
pub open spec fn byte_channel(k: int) -> int {
    k % 4
}

/// Every byte of a buffer is one channel of one pixel.
pub proof fn lemma_byte_decompose(tw: int, th: int, k: int)
    requires
        tw > 0,
        th > 0,
        0 <= k < tw * th * 4,
    ensures
        0 <= byte_x(tw, k) < tw,
        0 <= byte_y(tw, th, k) < th,
        0 <= byte_channel(k) < 4,
        k == buffer_index(tw, th, byte_x(tw, k), byte_y(tw, th, k)) + byte_channel(k),
{
    let q = k / 4;
    lemma_fundamental_div_mod(k, 4);
    lemma_fundamental_div_mod(q, tw);
    let r = q / tw;
    assert(q < tw * th) by (nonlinear_arith)
        requires
            k == 4 * q + k % 4,
            0 <= k % 4 < 4,
            k < tw * th * 4,
    ;
    assert(0 <= q);
    assert(0 <= r < th) by (nonlinear_arith)
        requires
            q == tw * r + q % tw,
            0 <= q % tw < tw,
            0 <= q < tw * th,
            tw > 0,
    ;
    assert(k == ((th - 1 - (th - 1 - r)) * tw + q % tw) * 4 + k % 4) by (nonlinear_arith)
        requires
            k == 4 * q + k % 4,
            q == tw * r + q % tw,
    ;
}

/// The channel of a pixel lies in the buffer.
pub proof fn lemma_byte_in_bounds(tw: int, th: int, x: int, y: int, c: int)
    requires
        0 <= x < tw,
        0 <= y < th,
        0 <= c < 4,
    ensures
        0 <= buffer_index(tw, th, x, y) + c < tw * th * 4,
        buffer_index(tw, th, x, y) + 4 <= tw * th * 4,
{
    assert(0 <= (th - 1 - y) * tw + x < tw * th) by (nonlinear_arith)
        requires
            0 <= x < tw,
            0 <= y < th,
    ;
}

/// A channel of a pixel tells back the pixel and the channel.
pub proof fn lemma_byte_recover(tw: int, th: int, x: int, y: int, c: int)
    requires
        0 <= x < tw,
        0 <= y < th,
        0 <= c < 4,
    ensures
        byte_x(tw, buffer_index(tw, th, x, y) + c) == x,
        byte_y(tw, th, buffer_index(tw, th, x, y) + c) == y,
        byte_channel(buffer_index(tw, th, x, y) + c) == c,
{
    let q = (th - 1 - y) * tw + x;
    let k = q * 4 + c;
    assert(k == buffer_index(tw, th, x, y) + c);
    lemma_fundamental_div_mod_converse(k, 4, q, c);
    assert(0 <= th - 1 - y);
    lemma_fundamental_div_mod_converse(q, tw, th - 1 - y, x);
}

/// Row `j`, column `i` of a `w` by `h` row-major array lies in it.
pub proof fn lemma_row_major_in_bounds(i: int, j: int, w: int, h: int)
    requires
        0 <= i < w,
        0 <= j < h,
    ensures
        0 <= j * w + i < w * h,
{
    assert(0 <= j * w + i < w * h) by (nonlinear_arith)
        requires
            0 <= i < w,
            0 <= j < h,
    ;
}

} // verus!
