//! Scanline order of the render: the image file starts with the top row, so
//! rows are emitted from row `height - 1` down to row `0`, each from column
//! `0` to column `width - 1`. Row `0` is the bottom of the image, where the
//! camera's vertical coordinate is smallest.

use vstd::prelude::*;

verus! {

/// Column of the `index`-th pixel emitted.
pub open spec fn column_of(index: int, width: int) -> int {
    index % width
}

/// Row of the `index`-th pixel emitted.
pub open spec fn row_of(index: int, width: int, height: int) -> int {
    height - 1 - index / width
}

/// Output position of the pixel at column `i` and row `j`.
pub open spec fn index_of(i: int, j: int, width: int, height: int) -> int {
    (height - 1 - j) * width + i
}

/// Column and row of the `index`-th pixel emitted for a `width` by `height`
/// image.
pub fn pixel_at(index: usize, width: usize, height: usize) -> (r: (usize, usize))
    requires
        width > 0,
        index < width * height,
    ensures
        r.0 == column_of(index as int, width as int),
        r.1 == row_of(index as int, width as int, height as int),
        r.0 < width,
        r.1 < height,
{
    proof {
        lemma_split(index as int, width as int, height as int);
    }
    (index % width, height - 1 - index / width)
}

/// Every pixel of the image is emitted exactly once: the `index`-th pixel
/// lies inside the image and is the one at output position `index`, and each
/// pixel inside the image has an output position below `width * height`.
pub proof fn lemma_each_pixel_once(width: int, height: int)
    requires
        width > 0,
        height > 0,
    ensures
        forall|k: int|
            0 <= k < width * height ==> {
                let i = #[trigger] column_of(k, width);
                let j = row_of(k, width, height);
                &&& 0 <= i < width
                &&& 0 <= j < height
                &&& index_of(i, j, width, height) == k
            },
        forall|i: int, j: int|
            0 <= i < width && 0 <= j < height ==> {
                let k = #[trigger] index_of(i, j, width, height);
                &&& 0 <= k < width * height
                &&& column_of(k, width) == i
                &&& row_of(k, width, height) == j
            },
{
    assert forall|k: int| 0 <= k < width * height implies {
        let i = #[trigger] column_of(k, width);
        let j = row_of(k, width, height);
        &&& 0 <= i < width
        &&& 0 <= j < height
        &&& index_of(i, j, width, height) == k
    } by {
        lemma_split(k, width, height);
    }
    assert forall|i: int, j: int| 0 <= i < width && 0 <= j < height implies {
        let k = #[trigger] index_of(i, j, width, height);
        &&& 0 <= k < width * height
        &&& column_of(k, width) == i
        &&& row_of(k, width, height) == j
    } by {
        lemma_join(i, height - 1 - j, width, height);
    }
}

proof fn lemma_split(k: int, width: int, height: int)
    requires
        width > 0,
        0 <= k < width * height,
    ensures
        0 <= k % width < width,
        0 <= k / width < height,
        (k / width) * width + k % width == k,
{
    assert(0 <= k % width < width && (k / width) * width + k % width == k) by (nonlinear_arith)
        requires
            width > 0,
    ;
    assert(0 <= k / width < height) by (nonlinear_arith)
        requires
            width > 0,
            0 <= k < width * height,
    ;
}

proof fn lemma_join(i: int, q: int, width: int, height: int)
    requires
        0 <= i < width,
        0 <= q < height,
    ensures
        0 <= q * width + i < width * height,
        (q * width + i) % width == i,
        (q * width + i) / width == q,
{
    assert(0 <= q * width + i < width * height) by (nonlinear_arith)
        requires
            0 <= i < width,
            0 <= q < height,
    ;
    vstd::arithmetic::div_mod::lemma_fundamental_div_mod_converse(q * width + i, width, q, i);
}

} // verus!
