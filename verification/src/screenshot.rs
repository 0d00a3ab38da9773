//! The window sizes at which the initial editor UI is captured.

use vstd::prelude::*;

use crate::waveform::Size;

verus! {

/// `value * numerator / denominator`, the product saturating at
/// `u32::MAX`, and at least one pixel.
pub open spec fn scaled_dimension_spec(value: u32, numerator: u32, denominator: u32) -> u32 {
    let product = if value * numerator > u32::MAX {
        u32::MAX as int
    } else {
        value * numerator
    };
    let quotient = product / denominator as int;
    if quotient > 1 {
        quotient as u32
    } else {
        1
    }
}

/// Scale one window dimension by `numerator / denominator`.
pub fn scaled_dimension(value: u32, numerator: u32, denominator: u32) -> (r: u32)
    requires
        denominator > 0,
    ensures
        r == scaled_dimension_spec(value, numerator, denominator),
{
    let product = match value.checked_mul(numerator) {
        Some(product) => product,
        None => u32::MAX,
    };
    let quotient = product / denominator;
    if quotient > 1 {
        quotient
    } else {
        1
    }
}

/// The screenshot sizes for a base window size: the base itself (at least
/// one pixel each way), then 0.75x, 1.25x and 1.5x of it.
pub open spec fn screenshot_sizes_spec(base: Size) -> Seq<Size> {
    let width = if base.width > 1 {
        base.width
    } else {
        1u32
    };
    let height = if base.height > 1 {
        base.height
    } else {
        1u32
    };
    seq![
        Size { width, height },
        Size {
            width: scaled_dimension_spec(width, 3, 4),
            height: scaled_dimension_spec(height, 3, 4),
        },
        Size {
            width: scaled_dimension_spec(width, 5, 4),
            height: scaled_dimension_spec(height, 5, 4),
        },
        Size {
            width: scaled_dimension_spec(width, 3, 2),
            height: scaled_dimension_spec(height, 3, 2),
        },
    ]
}

/// Standard screenshot size set: base, 0.75x, 1.25x and 1.5x.
pub fn default_screenshot_sizes(base: Size) -> (sizes: [Size; 4])
    ensures
        sizes@ == screenshot_sizes_spec(base),
{
    let width = if base.width > 1 {
        base.width
    } else {
        1
    };
    let height = if base.height > 1 {
        base.height
    } else {
        1
    };
    let sizes = [
        Size { width, height },
        Size { width: scaled_dimension(width, 3, 4), height: scaled_dimension(height, 3, 4) },
        Size { width: scaled_dimension(width, 5, 4), height: scaled_dimension(height, 5, 4) },
        Size { width: scaled_dimension(width, 3, 2), height: scaled_dimension(height, 3, 2) },
    ];
    proof {
        assert(sizes@ =~= screenshot_sizes_spec(base));
    }
    sizes
}

} // verus!
