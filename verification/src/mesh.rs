//! The triangles of the painted fields: which vertices each one joins.

use vstd::prelude::*;

verus! {

/// The six corners that fill the strip between two columns of a field, whose
/// vertices come a column at a time: one on the curve, one on the baseline.
pub open spec fn strip_cell(column: int) -> Seq<u32> {
    let base = 2 * (column + 1);
    seq![
        (base - 2) as u32,
        (base - 1) as u32,
        base as u32,
        (base - 1) as u32,
        base as u32,
        (base + 1) as u32,
    ]
}

/// The corners of a field over some columns, in order.
pub open spec fn strip(columns: int) -> Seq<u32>
    decreases columns,
{
    if columns < 2 {
        Seq::empty()
    } else {
        strip(columns - 1) + strip_cell(columns - 2)
    }
}

/// The triangles of a field under a curve of some points. A field that cannot
/// be seen, or has nothing to span, has none.
pub fn area_mesh(points: usize, visible: bool) -> (r: Vec<u32>)
    requires
        2 * points <= u32::MAX,
    ensures
        r@ == (if visible {
            strip(points as int)
        } else {
            Seq::empty()
        }),
{
    let mut out: Vec<u32> = Vec::new();
    if !visible || points < 2 {
        assert(out@ =~= Seq::empty());
        return out;
    }
    let mut column: usize = 1;
    assert(out@ =~= strip(1));
    while column < points
        invariant
            1 <= column <= points,
            2 * points <= u32::MAX,
            out@ == strip(column as int),
        decreases points - column,
    {
        let base: u32 = 2 * (column as u32);
        out.push(base - 2);
        out.push(base - 1);
        out.push(base);
        out.push(base - 1);
        out.push(base);
        out.push(base + 1);
        assert(out@ =~= strip(column as int) + strip_cell(column - 1));
        column = column + 1;
    }
    out
}

/// A field over `columns` columns has two triangles for each pair of neighbours,
/// and no corner that is not one of its vertices.
pub proof fn a_field_covers_every_column(columns: int)
    requires
        2 <= columns,
        2 * columns <= u32::MAX,
    ensures
        strip(columns).len() == 6 * (columns - 1),
        forall|k: int|
            0 <= k < strip(columns).len() ==> (#[trigger] strip(columns)[k]) < 2 * columns,
        forall|v: u32| v < 2 * columns ==> #[trigger] strip(columns).contains(v),
    decreases columns,
{
    let last = strip_cell(columns - 2);
    let before = strip(columns - 1);
    if columns > 2 {
        a_field_covers_every_column(columns - 1);
    }
    assert forall|v: u32| v < 2 * columns implies #[trigger] strip(columns).contains(v) by {
        if v >= 2 * columns - 4 {
            let k = before.len() + (if v < 2 * columns - 1 {
                v - (2 * columns - 4)
            } else {
                5
            });
            assert(strip(columns)[k] == v);
        } else {
            assert(before.contains(v));
            let k = choose|k: int| 0 <= k < before.len() && before[k] == v;
            assert(strip(columns)[k] == before[k]);
        }
    }
}

/// How many rows of vertices the spectrum's field has in each column.
pub const ROWS: u32 = 5;

/// The six corners that fill the cell between two columns and two rows.
pub open spec fn ladder_cell(column: int, row: int) -> Seq<u32> {
    let a = column * 5 + row;
    let b = (column + 1) * 5 + row;
    seq![a as u32, (a + 1) as u32, b as u32, (a + 1) as u32, b as u32, (b + 1) as u32]
}

/// The corners of the first `rows` cells between a column and the next.
pub open spec fn rungs(column: int, rows: int) -> Seq<u32>
    decreases rows,
{
    if rows <= 0 {
        Seq::empty()
    } else {
        rungs(column, rows - 1) + ladder_cell(column, rows - 1)
    }
}

/// The corners of the spectrum's field over some columns, in order.
pub open spec fn ladder(columns: int) -> Seq<u32>
    decreases columns,
{
    if columns < 2 {
        Seq::empty()
    } else {
        ladder(columns - 1) + rungs(columns - 2, 4)
    }
}

/// The triangles of the field under the spectrum, five rows of vertices to a
/// column. A trace of fewer than two columns has none.
pub fn spectrum_fill(columns: usize) -> (r: Vec<u32>)
    requires
        5 * columns <= u32::MAX,
    ensures
        r@ == ladder(columns as int),
{
    let mut out: Vec<u32> = Vec::new();
    let mut column: usize = 1;
    assert(out@ =~= ladder(1));
    assert(out@ =~= ladder(0));
    while column < columns
        invariant
            1 <= column,
            column <= columns || columns == 0,
            5 * columns <= u32::MAX,
            out@ == ladder(if column <= columns {
                column as int
            } else {
                columns as int
            }),
        decreases columns - column,
    {
        let ghost start = out@;
        let left: u32 = column as u32 - 1;
        let mut row: u32 = 0;
        assert(out@ =~= start + rungs(left as int, 0));
        while row < 4
            invariant
                row <= 4,
                left == column - 1,
                column < columns,
                5 * columns <= u32::MAX,
                out@ == start + rungs(left as int, row as int),
            decreases 4 - row,
        {
            let a: u32 = left * ROWS + row;
            let b: u32 = (left + 1) * ROWS + row;
            let ghost before = out@;
            out.push(a);
            out.push(a + 1);
            out.push(b);
            out.push(a + 1);
            out.push(b);
            out.push(b + 1);
            assert(out@ =~= before + ladder_cell(left as int, row as int));
            row = row + 1;
            assert(out@ =~= start + rungs(left as int, row as int));
        }
        column = column + 1;
    }
    out
}

/// The spectrum's field has eight triangles for each pair of neighbouring
/// columns, and no corner that is not one of its vertices.
pub proof fn a_spectrum_fill_stays_in_its_columns(columns: int)
    requires
        1 <= columns,
        5 * columns <= u32::MAX,
    ensures
        ladder(columns).len() == 24 * (columns - 1),
        forall|k: int|
            0 <= k < ladder(columns).len() ==> (#[trigger] ladder(columns)[k]) < 5 * columns,
    decreases columns,
{
    if columns >= 2 {
        a_spectrum_fill_stays_in_its_columns(columns - 1);
        reveal_with_fuel(rungs, 5);
    }
}

/// The corners of a fan of `steps` triangles about the first vertex.
pub open spec fn fan_of(steps: int) -> Seq<u32>
    decreases steps,
{
    if steps <= 0 {
        Seq::empty()
    } else {
        fan_of(steps - 1) + seq![0u32, steps as u32, (steps + 1) as u32]
    }
}

/// The triangles of a soft round wash: a fan from its centre to the rim.
pub fn glow(steps: u32) -> (r: Vec<u32>)
    requires
        steps < u32::MAX,
    ensures
        r@ == fan_of(steps as int),
{
    let mut out: Vec<u32> = Vec::new();
    let mut i: u32 = 0;
    assert(out@ =~= fan_of(0));
    while i < steps
        invariant
            i <= steps < u32::MAX,
            out@ == fan_of(i as int),
        decreases steps - i,
    {
        i = i + 1;
        out.push(0);
        out.push(i);
        out.push(i + 1);
        assert(out@ =~= fan_of(i - 1) + seq![0u32, i, (i + 1) as u32]);
    }
    out
}

/// Between two neighbouring columns of a field stand two triangles, which share the
/// line from the baseline of the one column to the curve of the other.
pub proof fn two_triangles_fill_a_strip(columns: int, c: int)
    requires
        0 <= c < columns - 1,
        2 * columns <= u32::MAX,
    ensures
        strip(columns).len() == 6 * (columns - 1),
        strip(columns)[6 * c] == 2 * c,
        strip(columns)[6 * c + 1] == 2 * c + 1,
        strip(columns)[6 * c + 2] == 2 * c + 2,
        strip(columns)[6 * c + 3] == 2 * c + 1,
        strip(columns)[6 * c + 4] == 2 * c + 2,
        strip(columns)[6 * c + 5] == 2 * c + 3,
    decreases columns,
{
    if columns > 2 {
        a_field_covers_every_column(columns - 1);
    } else {
        assert(strip(1).len() == 0);
    }
    if c < columns - 2 {
        two_triangles_fill_a_strip(columns - 1, c);
    }
}

/// A fan has one triangle for each step, from the centre to two neighbours on the
/// rim.
pub proof fn a_fan_joins_the_rim_to_its_centre(steps: int, k: int)
    requires
        0 <= k < steps < u32::MAX,
    ensures
        fan_of(steps).len() == 3 * steps,
        fan_of(steps)[3 * k] == 0,
        fan_of(steps)[3 * k + 1] == k + 1,
        fan_of(steps)[3 * k + 2] == k + 2,
    decreases steps,
{
    lemma_fan_size(steps - 1);
    if k < steps - 1 {
        a_fan_joins_the_rim_to_its_centre(steps - 1, k);
    }
}

proof fn lemma_fan_size(steps: int)
    requires
        0 <= steps,
    ensures
        fan_of(steps).len() == 3 * steps,
    decreases steps,
{
    if steps > 0 {
        lemma_fan_size(steps - 1);
    }
}

/// Between two neighbouring columns of the spectrum's field stand four cells of two
/// triangles each, one above the other.
pub proof fn four_cells_fill_a_column(columns: int, row: int)
    requires
        2 <= columns,
        5 * columns <= u32::MAX,
        0 <= row < 4,
    ensures
        ({
            let at = 24 * (columns - 2) + 6 * row;
            let a = 5 * (columns - 2) + row;
            &&& ladder(columns)[at] == a
            &&& ladder(columns)[at + 1] == a + 1
            &&& ladder(columns)[at + 2] == a + 5
            &&& ladder(columns)[at + 3] == a + 1
            &&& ladder(columns)[at + 4] == a + 5
            &&& ladder(columns)[at + 5] == a + 6
        }),
        ladder(columns).take(24 * (columns - 2)) == ladder(columns - 1),
{
    a_spectrum_fill_stays_in_its_columns(columns - 1);
    reveal_with_fuel(rungs, 5);
    assert(ladder(columns).take(24 * (columns - 2)) =~= ladder(columns - 1));
}

} // verus!
