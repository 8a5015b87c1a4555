//! Cutting a rectangular region out of the bytes of an image.

use vstd::prelude::*;

verus! {

/// Why a region of an image is refused.
#[derive(PartialEq, Eq, Structural, Copy, Clone, Debug)]
pub enum RegionError {
    /// The first bound in x is greater than the second.
    FirstXGreater,
    /// The first bound in y is greater than the second.
    FirstYGreater,
    /// A bound lies beyond the image.
    ExceedsImage,
}

/// What checking the bounds of a region gives: the first of the three
/// complaints that applies, in the order of [`RegionError`], or none.
pub open spec fn region_check(
    width: usize,
    height: usize,
    x0: usize,
    y0: usize,
    x1: usize,
    y1: usize,
) -> Result<(), RegionError> {
    if x0 > x1 {
        Err(RegionError::FirstXGreater)
    } else if y0 > y1 {
        Err(RegionError::FirstYGreater)
    } else if x1 > width || y1 > height {
        Err(RegionError::ExceedsImage)
    } else {
        Ok(())
    }
}

/// Whether the byte at position `i` of an image `width` wide is kept: whether
/// four times `i`, taken as the position of a cell in a grid `width` wide, lies
/// in the columns from `x0` up to `x1` and the rows from `y0` up to `y1`.
pub open spec fn keeps_byte(i: int, width: int, x0: int, y0: int, x1: int, y1: int) -> bool {
    &&& x0 <= (i * 4) % width < x1
    &&& y0 <= (i * 4) / width < y1
}

/// The bytes that are kept of the first `len` bytes of an image, in their order.
pub open spec fn kept_bytes(
    rgba: Seq<u8>,
    len: int,
    width: int,
    x0: int,
    y0: int,
    x1: int,
    y1: int,
) -> Seq<u8>
    decreases len,
{
    if len <= 0 {
        Seq::<u8>::empty()
    } else {
        let front = kept_bytes(rgba, len - 1, width, x0, y0, x1, y1);
        if keeps_byte(len - 1, width, x0, y0, x1, y1) {
            front.push(rgba[len - 1])
        } else {
            front
        }
    }
}

/// Checks the bounds of a region against the size of an image.
pub fn check_region(
    width: usize,
    height: usize,
    x0: usize,
    y0: usize,
    x1: usize,
    y1: usize,
) -> (result: Result<(), RegionError>)
    ensures
        result == region_check(width, height, x0, y0, x1, y1),
{
    if x0 > x1 {
        return Err(RegionError::FirstXGreater);
    }
    if y0 > y1 {
        return Err(RegionError::FirstYGreater);
    }
    if x1 > width || y1 > height {
        return Err(RegionError::ExceedsImage);
    }
    Ok(())
}

/// Picks the bytes of a region out of the bytes of an image `width` wide.
///
/// The image must have a width.
pub fn region_bytes(
    rgba: &Vec<u8>,
    width: usize,
    x0: usize,
    y0: usize,
    x1: usize,
    y1: usize,
) -> (region: Vec<u8>)
    requires
        width > 0,
    ensures
        region@ == kept_bytes(
            rgba@,
            rgba@.len() as int,
            width as int,
            x0 as int,
            y0 as int,
            x1 as int,
            y1 as int,
        ),
{
    let mut vec_region: Vec<u8> = Vec::new();
    let mut i: usize = 0;
    while i < rgba.len()
        invariant
            i <= rgba.len(),
            width > 0,
            vec_region@ == kept_bytes(
                rgba@,
                i as int,
                width as int,
                x0 as int,
                y0 as int,
                x1 as int,
                y1 as int,
            ),
        decreases rgba.len() - i,
    {
        let place: u128 = (i as u128) * 4;
        let x_pos: u128 = place % (width as u128);
        let y_pos: u128 = place / (width as u128);
        if x_pos >= x0 as u128 && x_pos < x1 as u128 && y_pos >= y0 as u128 && y_pos < y1 as u128 {
            vec_region.push(rgba[i]);
        }
        i += 1;
    }
    vec_region
}

} // verus!
