use vstd::prelude::*;

verus! {

/// The number of rows of an image whose width divided by its aspect ratio,
/// truncated toward zero, is `rows`: an image has at least one row.
pub fn image_height(rows: i64) -> (r: i64)
    ensures
        r == if rows < 1 {
            1
        } else {
            rows
        },
        r >= 1,
{
    if rows < 1 {
        1
    } else {
        rows
    }
}

} // verus!
