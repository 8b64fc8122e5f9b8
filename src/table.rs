use vstd::prelude::*;

verus! {

/// Width of a cell: the number of characters in its text, which is what padding counts.
pub open spec fn text_width(s: Seq<char>) -> nat {
    s.len()
}

/// Widest cell of column `c` among the header and the first `k` rows.
pub open spec fn width_over(headers: Seq<Seq<char>>, rows: Seq<Seq<Seq<char>>>, c: int, k: nat) -> nat
    decreases k,
{
    if k == 0 {
        text_width(headers[c])
    } else {
        let earlier = width_over(headers, rows, c, (k - 1) as nat);
        let cell = text_width(rows[k - 1][c]);
        if cell > earlier {
            cell
        } else {
            earlier
        }
    }
}

/// Every row has one cell per header.
pub open spec fn rows_fit(headers: Seq<Seq<char>>, rows: Seq<Seq<Seq<char>>>) -> bool {
    forall|k: int| 0 <= k < rows.len() ==> (#[trigger] rows[k]).len() == headers.len()
}

/// Width of each column of a table: its widest cell, header included.
pub fn column_widths(headers: &Vec<String>, rows: &Vec<Vec<String>>) -> (r: Vec<usize>)
    requires
        rows_fit(headers.deep_view(), rows.deep_view()),
    ensures
        r@.len() == headers@.len(),
        forall|c: int|
            0 <= c < r@.len() ==> r@[c] as nat == width_over(
                headers.deep_view(),
                rows.deep_view(),
                c,
                rows@.len(),
            ),
{
    let ghost hs = headers.deep_view();
    let ghost rs = rows.deep_view();
    let ncols = headers.len();
    let nrows = rows.len();
    let mut r: Vec<usize> = Vec::new();
    let mut c: usize = 0;
    while c < ncols
        invariant
            ncols == headers@.len(),
            nrows == rows@.len(),
            hs == headers.deep_view(),
            rs == rows.deep_view(),
            rows_fit(hs, rs),
            c <= ncols,
            r@.len() == c,
            forall|j: int| 0 <= j < c ==> r@[j] as nat == width_over(hs, rs, j, nrows as nat),
        decreases ncols - c,
    {
        assert(hs[c as int] == headers@[c as int]@);
        let mut w: usize = headers[c].as_str().unicode_len();
        let mut k: usize = 0;
        while k < nrows
            invariant
                ncols == headers@.len(),
                nrows == rows@.len(),
                hs == headers.deep_view(),
                rs == rows.deep_view(),
                rows_fit(hs, rs),
                c < ncols,
                k <= nrows,
                w as nat == width_over(hs, rs, c as int, k as nat),
            decreases nrows - k,
        {
            assert(rs[k as int].len() == hs.len());
            assert(rs[k as int] == rows@[k as int].deep_view());
            assert(rs[k as int][c as int] == rows@[k as int]@[c as int]@);
            let cell: usize = rows[k][c].as_str().unicode_len();
            if cell > w {
                w = cell;
            }
            k = k + 1;
        }
        r.push(w);
        c = c + 1;
    }
    r
}

} // verus!
