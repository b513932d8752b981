use vstd::prelude::*;

verus! {

/// Byte `x` of row `y` of `s`, whose rows are `width` bytes long.
pub open spec fn cell(s: Seq<u8>, width: int, y: int, x: int) -> u8 {
    s[y * width + x]
}

proof fn lemma_cell_before(jj: int, kk: int, len: int, j: int)
    requires
        0 <= jj < j,
        0 <= kk < len,
    ensures
        0 <= jj * len + kk < j * len,
{
    assert(jj * len + kk < (jj + 1) * len) by (nonlinear_arith)
        requires
            0 <= kk < len,
    ;
    assert((jj + 1) * len <= j * len) by (nonlinear_arith)
        requires
            jj + 1 <= j,
            0 <= len,
    ;
    assert(0 <= jj * len) by (nonlinear_arith)
        requires
            0 <= jj,
            0 <= len,
    ;
}

/// Collects `rows` rows of `len` bytes each, starting at byte `skip` of every
/// row, walking the rows of `data` (which are `stride` bytes apart) downward
/// from row `top`.
pub fn gather_rows(data: &Vec<u8>, stride: usize, top: usize, rows: usize, skip: usize, len: usize) -> (r:
    Vec<u8>)
    requires
        rows <= top + 1,
        (top + 1) * stride <= data@.len(),
        skip + len <= stride,
    ensures
        r@.len() == rows * len,
        forall|j: int, k: int|
            0 <= j < rows && 0 <= k < len ==> #[trigger] cell(r@, len as int, j, k) == cell(
                data@,
                stride as int,
                top - j,
                skip + k,
            ),
{
    let n = data.len();
    let mut r: Vec<u8> = Vec::new();
    let mut j: usize = 0;
    while j < rows
        invariant
            j <= rows,
            rows <= top + 1,
            (top + 1) * stride <= data@.len(),
            skip + len <= stride,
            r@.len() == j * len,
            n == data@.len(),
            forall|jj: int, k: int|
                0 <= jj < j && 0 <= k < len ==> #[trigger] cell(r@, len as int, jj, k) == cell(
                    data@,
                    stride as int,
                    top - jj,
                    skip + k,
                ),
        decreases rows - j,
    {
        let row = top - j;
        assert((row + 1) * stride <= (top + 1) * stride) by (nonlinear_arith)
            requires
                row <= top,
        ;
        assert(row * stride + stride == (row + 1) * stride) by (nonlinear_arith);
        let start = row * stride + skip;
        let ghost base = r@;
        let mut k: usize = 0;
        while k < len
            invariant
                j < rows,
                k <= len,
                start == row * stride + skip,
                start + len <= data@.len(),
                n == data@.len(),
                row == top - j,
                r@.len() == j * len + k,
                base.len() == j * len,
                forall|i: int| 0 <= i < base.len() ==> r@[i] == base[i],
                forall|kk: int|
                    0 <= kk < k ==> #[trigger] cell(r@, len as int, j as int, kk) == cell(
                        data@,
                        stride as int,
                        row as int,
                        skip + kk,
                    ),
            decreases len - k,
        {
            let ghost before = r@;
            r.push(data[start + k]);
            proof {
                assert(cell(r@, len as int, j as int, k as int) == cell(
                    data@,
                    stride as int,
                    row as int,
                    skip + k,
                ));
                assert forall|kk: int| 0 <= kk < k implies #[trigger] cell(
                    r@,
                    len as int,
                    j as int,
                    kk,
                ) == cell(data@, stride as int, row as int, skip + kk) by {
                    assert(cell(before, len as int, j as int, kk) == cell(
                        data@,
                        stride as int,
                        row as int,
                        skip + kk,
                    ));
                }
            }
            k += 1;
        }
        proof {
            assert((j + 1) * len == j * len + len) by (nonlinear_arith);
            assert forall|jj: int, kk: int|
                0 <= jj < j + 1 && 0 <= kk < len implies #[trigger] cell(r@, len as int, jj, kk)
                == cell(data@, stride as int, top - jj, skip + kk) by {
                if jj < j {
                    lemma_cell_before(jj, kk, len as int, j as int);
                    assert(cell(base, len as int, jj, kk) == cell(
                        data@,
                        stride as int,
                        top - jj,
                        skip + kk,
                    ));
                }
            }
        }
        j += 1;
    }
    r
}

/// Reverses the order of the `rows` rows of `data`, each `row_len` bytes long.
pub fn flip_rows(data: &Vec<u8>, row_len: usize, rows: usize) -> (r: Vec<u8>)
    requires
        data@.len() == rows * row_len,
    ensures
        r@.len() == data@.len(),
        forall|y: int, x: int|
            0 <= y < rows && 0 <= x < row_len ==> #[trigger] cell(r@, row_len as int, y, x) == cell(
                data@,
                row_len as int,
                rows - 1 - y,
                x,
            ),
{
    if rows == 0 {
        assert(data@.len() == 0);
        return Vec::new();
    }
    assert((rows - 1 + 1) * row_len == rows * row_len);
    gather_rows(data, row_len, rows - 1, rows, 0, row_len)
}

/// Two byte sequences of `rows` rows of `row_len` bytes that agree cell by cell are equal.
pub proof fn lemma_cells_determine(a: Seq<u8>, b: Seq<u8>, row_len: int, rows: int)
    requires
        row_len > 0,
        rows >= 0,
        a.len() == rows * row_len,
        b.len() == rows * row_len,
        forall|y: int, x: int|
            0 <= y < rows && 0 <= x < row_len ==> #[trigger] cell(a, row_len, y, x) == cell(
                b,
                row_len,
                y,
                x,
            ),
    ensures
        a == b,
{
    assert forall|i: int| 0 <= i < a.len() implies a[i] == b[i] by {
        let y = i / row_len;
        let x = i % row_len;
        vstd::arithmetic::div_mod::lemma_fundamental_div_mod(i, row_len);
        assert(0 <= x < row_len);
        assert(0 <= y < rows) by (nonlinear_arith)
            requires
                i == row_len * y + x,
                0 <= x < row_len,
                0 <= i < rows * row_len,
                row_len > 0,
        ;
        assert(y * row_len + x == i) by (nonlinear_arith)
            requires
                i == row_len * y + x,
        ;
        assert(cell(a, row_len, y, x) == cell(b, row_len, y, x));
    }
    assert(a =~= b);
}

/// Reading back the whole of an image that was uploaded with its rows
/// reversed, and reversing the rows again, gives the image as it was: what
/// `Texture::from_image` uploads, `Texture::get_image_data` of a texture that
/// views all of it turns back into the original bytes.
pub proof fn lemma_upload_readback_round_trip(
    pixels: Seq<u8>,
    uploaded: Seq<u8>,
    read_back: Seq<u8>,
    row_len: int,
    rows: int,
)
    requires
        row_len > 0,
        rows >= 0,
        pixels.len() == rows * row_len,
        read_back.len() == rows * row_len,
        forall|y: int, x: int|
            0 <= y < rows && 0 <= x < row_len ==> #[trigger] cell(uploaded, row_len, y, x) == cell(
                pixels,
                row_len,
                rows - 1 - y,
                x,
            ),
        forall|y: int, x: int|
            0 <= y < rows && 0 <= x < row_len ==> #[trigger] cell(read_back, row_len, y, x) == cell(
                uploaded,
                row_len,
                rows - 1 - y,
                x,
            ),
    ensures
        read_back == pixels,
{
    assert forall|y: int, x: int|
        0 <= y < rows && 0 <= x < row_len implies #[trigger] cell(read_back, row_len, y, x) == cell(
        pixels,
        row_len,
        y,
        x,
    ) by {
        assert(cell(uploaded, row_len, rows - 1 - y, x) == cell(
            pixels,
            row_len,
            rows - 1 - (rows - 1 - y),
            x,
        ));
    }
    lemma_cells_determine(read_back, pixels, row_len, rows);
}

} // verus!
