use vstd::prelude::*;

verus! {

/// The characters of each row.
pub open spec fn rows_view(rows: Seq<Vec<char>>) -> Seq<Seq<char>> {
    rows.map_values(|r: Vec<char>| r@)
}

/// The characters `v[lo..hi]`.
pub fn copy_chars(v: &Vec<char>, lo: usize, hi: usize) -> (r: Vec<char>)
    requires
        lo <= hi <= v@.len(),
    ensures
        r@ == v@.subrange(lo as int, hi as int),
{
    let mut out: Vec<char> = Vec::new();
    let mut i: usize = lo;
    while i < hi
        invariant
            lo <= i <= hi,
            hi <= v@.len(),
            out@ == v@.subrange(lo as int, i as int),
        decreases hi - i,
    {
        out.push(v[i]);
        i = i + 1;
        assert(out@ =~= v@.subrange(lo as int, i as int));
    }
    out
}

/// `rows` with `count` rows from `start` on replaced by `middle`.
pub fn splice_rows(rows: &Vec<Vec<char>>, start: usize, count: usize, middle: Vec<Vec<char>>) -> (r: Vec<
    Vec<char>,
>)
    requires
        start + count <= rows@.len(),
    ensures
        rows_view(r@) == rows_view(rows@).take(start as int) + rows_view(middle@) + rows_view(
            rows@,
        ).skip(start + count),
{
    let mut out: Vec<Vec<char>> = Vec::new();
    let mut i: usize = 0;
    while i < start
        invariant
            i <= start,
            start + count <= rows@.len(),
            rows_view(out@) == rows_view(rows@).take(i as int),
        decreases start - i,
    {
        let row = copy_chars(&rows[i], 0, rows[i].len());
        proof {
            assert(rows@[i as int]@.subrange(0, rows@[i as int]@.len() as int) =~= rows@[i as int]@);
        }
        let ghost prev = out@;
        out.push(row);
        proof {
            assert(rows_view(out@) =~= rows_view(prev).push(rows@[i as int]@));
            assert(rows_view(rows@).take(i + 1) =~= rows_view(rows@).take(i as int).push(
                rows@[i as int]@,
            ));
        }
        i = i + 1;
    }
    let ghost head = out@;
    let mut middle = middle;
    let ghost mid = middle@;
    out.append(&mut middle);
    assert(rows_view(out@) =~= rows_view(head) + rows_view(mid));
    let ghost before = out@;
    let total = rows.len();
    assert(start + count <= total);
    let mut j: usize = start + count;
    while j < rows.len()
        invariant
            start + count <= j <= rows@.len(),
            rows_view(out@) == rows_view(before) + rows_view(rows@).subrange(
                start + count,
                j as int,
            ),
        decreases rows@.len() - j,
    {
        let row = copy_chars(&rows[j], 0, rows[j].len());
        proof {
            assert(rows@[j as int]@.subrange(0, rows@[j as int]@.len() as int) =~= rows@[j as int]@);
        }
        let ghost prev = out@;
        out.push(row);
        proof {
            assert(rows_view(out@) =~= rows_view(prev).push(rows@[j as int]@));
            assert(rows_view(rows@).subrange(start + count, j + 1) =~= rows_view(rows@).subrange(
                start + count,
                j as int,
            ).push(rows@[j as int]@));
        }
        j = j + 1;
    }
    assert(rows_view(rows@).subrange(start + count, rows@.len() as int) =~= rows_view(rows@).skip(
        start + count,
    ));
    out
}

} // verus!
