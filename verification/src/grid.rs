//! Laying out the cover grids of the library pages: how many items of a given
//! size fit a row, and the spacing between the columns.
use vstd::prelude::*;

verus! {

/// The width of `k` grid cells of `cell` pixels.
pub open spec fn span(k: int, cell: int) -> int {
    k * cell
}

/// Every row width tried while counting the cells of a row fits in `u32`:
/// as long as `k` cells are narrower than the row, `k + 1` cells fit.
pub open spec fn grid_fits(width: u32, cell: u32) -> bool {
    forall|k: int| 0 <= k && #[trigger] span(k, cell as int) < width ==> span(k + 1, cell as int) <= u32::MAX
}

/// The column spacing for `items` items per row: what is left of the row
/// after them, spread over the gaps when there are three or more.
pub open spec fn grid_spacing(width: u32, cell: u32, items: u32) -> u16 {
    let rest = width - span(items as int, cell as int);
    if items < 3 {
        rest as u16
    } else {
        (rest / (items - 1)) as u16
    }
}

/// The number of items per row (one fewer than the cells needed to cover the
/// row width, so that they fit with room to spare) and the column spacing,
/// for items of `grid_item_size * 32` pixels.
pub fn grid_layout(width: u32, grid_item_size: u32) -> (r: (u32, u16))
    requires
        0 < width,
        0 < grid_item_size,
        grid_item_size * 32 <= u32::MAX,
        grid_fits(width, (grid_item_size * 32) as u32),
    ensures
        span(r.0 as int, grid_item_size * 32) < width <= span(r.0 + 1, grid_item_size * 32),
        r.1 == grid_spacing(width, (grid_item_size * 32) as u32, r.0),
{
    let cell: u32 = grid_item_size * 32;
    let mut items_per_row: u32 = 0;
    while width > items_per_row * cell
        invariant
            0 < cell,
            0 < width,
            grid_fits(width, cell),
            span(items_per_row as int, cell as int) <= u32::MAX,
            items_per_row == 0 || span(items_per_row - 1, cell as int) < width,
            span(items_per_row as int, cell as int) < width + cell,
        decreases width as int + cell - span(items_per_row as int, cell as int),
    {
        let ghost before = items_per_row as int;
        assert(span(before, cell as int) < width);
        assert(span(before + 1, cell as int) == span(before, cell as int) + cell) by (nonlinear_arith);
        assert(span(before + 1, cell as int) >= before + 1) by (nonlinear_arith)
            requires
                before >= 0,
                cell >= 1,
        ;
        items_per_row += 1;
        assert(span(items_per_row as int, cell as int) == span(before, cell as int) + cell);
    }
    assert(items_per_row > 0);
    items_per_row -= 1;
    assert(span(items_per_row + 1, cell as int) == span(items_per_row as int, cell as int) + cell)
        by (nonlinear_arith);
    let check_spacing: u32 = ((items_per_row + 1) * cell).saturating_sub(width);
    let check_final: u32 = cell - check_spacing;
    let spacing: u16 = if items_per_row < 3 {
        check_final as u16
    } else {
        (check_final / (items_per_row - 1)) as u16
    };
    (items_per_row, spacing)
}

} // verus!
