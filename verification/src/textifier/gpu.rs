use vstd::prelude::*;

use crate::textifier::types::CharacterData;

verus! {

/// Row `i` of `cells` cut into rows of `width` (the last row may be shorter).
pub open spec fn chunk(cells: Seq<CharacterData>, width: int, i: int) -> Seq<CharacterData> {
    let end = if (i + 1) * width < cells.len() {
        (i + 1) * width
    } else {
        cells.len() as int
    };
    cells.subrange(i * width, end)
}

/// Cuts the GPU's output, one cell after the other, into rows of `width`
/// cells, as `slice::chunks` does.
pub fn split_rows(cells: Vec<CharacterData>, width: u32) -> (rows: Vec<Vec<CharacterData>>)
    requires
        width > 0,
    ensures
        rows@.len() == (cells@.len() + width - 1) / width as int,
        forall|i: int| 0 <= i < rows@.len() ==> #[trigger] rows@[i]@ == chunk(cells@, width as int, i),
{
    let n = cells.len();
    let w = width as usize;
    let mut rows: Vec<Vec<CharacterData>> = Vec::new();
    let mut start: usize = 0;
    assert(rows@.len() == 0);
    assert(0 * w == 0) by (nonlinear_arith);
    if n == 0 {
        assert((n + w - 1) / w as int == 0) by (nonlinear_arith)
            requires
                n == 0,
                w > 0,
        ;
    }
    while start < n
        invariant
            n == cells@.len(),
            w == width,
            w > 0,
            start <= n,
            start == rows@.len() * w || start == n,
            start < n ==> start == rows@.len() * w,
            start == n ==> rows@.len() == (n + w - 1) / w as int,
            forall|i: int| 0 <= i < rows@.len() ==> #[trigger] rows@[i]@ == chunk(cells@, w as int, i),
        decreases n - start,
    {
        let end = if n - start > w { start + w } else { n };
        let mut row: Vec<CharacterData> = Vec::new();
        let mut k = start;
        while k < end
            invariant
                start <= k <= end <= n,
                n == cells@.len(),
                row@ == cells@.subrange(start as int, k as int),
            decreases end - k,
        {
            row.push(cells[k]);
            assert(cells@.subrange(start as int, k + 1) == cells@.subrange(start as int, k as int).push(cells@[k as int]));
            k = k + 1;
        }
        let ghost i = rows@.len() as int;
        assert(row@ == chunk(cells@, w as int, i)) by {
            assert(start == i * w);
            if n - start > w {
                assert((i + 1) * w == start + w) by (nonlinear_arith)
                    requires
                        start == i * w,
                ;
            } else {
                assert((i + 1) * w >= n) by (nonlinear_arith)
                    requires
                        start == i * w,
                        n - start <= w,
                ;
            }
        }
        rows.push(row);
        proof {
            if end == n {
                assert((n + w - 1) / w as int == i + 1) by (nonlinear_arith)
                    requires
                        start == i * w,
                        start < n,
                        n - start <= w,
                        w > 0,
                ;
            } else {
                assert(end == (i + 1) * w) by (nonlinear_arith)
                    requires
                        start == i * w,
                        end == start + w,
                ;
            }
        }
        start = end;
    }
    rows
}

} // verus!
