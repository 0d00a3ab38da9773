//! Logical editor size contracts negotiated with plugin hosts.

use vstd::prelude::*;

use crate::arith::{
    ceil_div_spec, gcd_spec, lemma_ceil_div_is_smallest, lemma_div_bounds, lemma_div_is_largest, lemma_gcd_divides,
    lemma_mul_div_cancel,
};

verus! {

/// The larger of two integers.
pub open spec fn max_int(a: int, b: int) -> int {
    if a >= b {
        a
    } else {
        b
    }
}

/// The smaller of two integers.
pub open spec fn min_int(a: int, b: int) -> int {
    if a <= b {
        a
    } else {
        b
    }
}

/// `value` limited to the inclusive interval `[low, high]`.
pub open spec fn clamp_int(value: int, low: int, high: int) -> int {
    if value < low {
        low
    } else if value > high {
        high
    } else {
        value
    }
}

/// Euclid's greatest common divisor, never below one.
pub fn gcd(left: u32, right: u32) -> (g: u32)
    ensures
        g as int == max_int(gcd_spec(left as nat, right as nat) as int, 1),
{
    let mut left = left;
    let mut right = right;
    let ghost a = left as nat;
    let ghost b = right as nat;
    while right != 0
        invariant
            gcd_spec(left as nat, right as nat) == gcd_spec(a, b),
        decreases right,
    {
        let remainder = left % right;
        left = right;
        right = remainder;
    }
    if left > 1 {
        left
    } else {
        1
    }
}

/// The number of `divisor` steps needed to cover `value`, rounded up.
pub fn ceil_div(value: u32, divisor: u32) -> (q: u64)
    requires
        divisor > 0,
    ensures
        q as int == ceil_div_spec(value as int, divisor as int),
        q as int * divisor as int >= value as int,
        q == 0 || (q as int - 1) * (divisor as int) < (value as int),
{
    proof {
        lemma_ceil_div_is_smallest(value as int, divisor as int, 0);
        let c = ceil_div_spec(value as int, divisor as int);
        lemma_ceil_div_is_smallest(value as int, divisor as int, c);
        if c > 0 {
            lemma_ceil_div_is_smallest(value as int, divisor as int, c - 1);
        }
        lemma_div_bounds(value as int + divisor as int - 1, divisor as int);
    }
    ((value as u64) + (divisor as u64) - 1) / (divisor as u64)
}

/// A logical editor size contract used by GPUI host resize negotiation.
#[derive(Clone, Copy, Debug, PartialEq, Eq)]
pub struct GpuiSizeContract {
    /// Inclusive minimum logical size.
    pub minimum: (u32, u32),
    /// Preferred logical size used when opening the editor.
    pub preferred: (u32, u32),
    /// Inclusive maximum logical size.
    pub maximum: (u32, u32),
}

impl GpuiSizeContract {
    /// Bounds ordered as `1 <= minimum <= preferred <= maximum` in each axis.
    pub open spec fn well_formed(self) -> bool {
        &&& 1 <= self.minimum.0 <= self.preferred.0 <= self.maximum.0
        &&& 1 <= self.minimum.1 <= self.preferred.1 <= self.maximum.1
    }

    /// The preferred size reduced to lowest terms.
    pub open spec fn unit(self) -> (int, int) {
        let g = gcd_spec(self.preferred.0 as nat, self.preferred.1 as nat) as int;
        (self.preferred.0 as int / g, self.preferred.1 as int / g)
    }

    /// Smallest whole multiple of the unit that reaches the minimum size.
    pub open spec fn minimum_multiplier(self) -> int {
        max_int(
            ceil_div_spec(self.minimum.0 as int, self.unit().0),
            ceil_div_spec(self.minimum.1 as int, self.unit().1),
        )
    }

    /// Largest whole multiple of the unit that fits the maximum size.
    pub open spec fn maximum_multiplier(self) -> int {
        min_int(self.maximum.0 as int / self.unit().0, self.maximum.1 as int / self.unit().1)
    }

    /// Largest whole multiple of the unit that fits inside `size` (each
    /// axis taken as at least one).
    pub open spec fn fitting_multiplier(self, size: (u32, u32)) -> int {
        min_int(
            max_int(size.0 as int, 1) / self.unit().0,
            max_int(size.1 as int, 1) / self.unit().1,
        )
    }

    /// The multiple of the unit chosen for a request.
    pub open spec fn fixed_aspect_multiplier(self, requested: (u32, u32)) -> int {
        clamp_int(
            self.fitting_multiplier(requested),
            self.minimum_multiplier(),
            self.maximum_multiplier(),
        )
    }

    /// The size chosen for a request under a fixed aspect ratio.
    pub open spec fn fixed_aspect_size(self, requested: (u32, u32)) -> (u32, u32) {
        let m = self.fixed_aspect_multiplier(requested);
        ((self.unit().0 * m) as u32, (self.unit().1 * m) as u32)
    }

    /// The size chosen for a request when each axis is clamped on its own.
    pub open spec fn free_size(self, requested: (u32, u32)) -> (u32, u32) {
        (
            max_int(clamp_int(requested.0 as int, self.minimum.0 as int, self.maximum.0 as int), 1)
                as u32,
            max_int(clamp_int(requested.1 as int, self.minimum.1 as int, self.maximum.1 as int), 1)
                as u32,
        )
    }

    /// Inputs on which fixed-aspect negotiation is defined: a positive
    /// preferred size whose multiples can satisfy both bounds.
    pub open spec fn fixed_aspect_feasible(self) -> bool {
        &&& self.preferred.0 >= 1
        &&& self.preferred.1 >= 1
        &&& self.minimum_multiplier() <= self.maximum_multiplier()
    }

    /// Construct an ordered contract, retaining the preferred size inside its bounds.
    pub fn new(preferred: (u32, u32), minimum: (u32, u32), maximum: (u32, u32)) -> (c: Self)
        ensures
            c.preferred.0 == max_int(preferred.0 as int, 1),
            c.preferred.1 == max_int(preferred.1 as int, 1),
            c.minimum.0 == min_int(max_int(minimum.0 as int, 1), c.preferred.0 as int),
            c.minimum.1 == min_int(max_int(minimum.1 as int, 1), c.preferred.1 as int),
            c.maximum.0 == max_int(maximum.0 as int, c.preferred.0 as int),
            c.maximum.1 == max_int(maximum.1 as int, c.preferred.1 as int),
            c.well_formed(),
    {
        let preferred = (
            if preferred.0 > 1 { preferred.0 } else { 1 },
            if preferred.1 > 1 { preferred.1 } else { 1 },
        );
        let min0 = if minimum.0 > 1 { minimum.0 } else { 1 };
        let min1 = if minimum.1 > 1 { minimum.1 } else { 1 };
        GpuiSizeContract {
            minimum: (
                if min0 < preferred.0 { min0 } else { preferred.0 },
                if min1 < preferred.1 { min1 } else { preferred.1 },
            ),
            preferred,
            maximum: (
                if maximum.0 > preferred.0 { maximum.0 } else { preferred.0 },
                if maximum.1 > preferred.1 { maximum.1 } else { preferred.1 },
            ),
        }
    }

    /// Clamp each axis of a request independently into the bounds.
    pub fn constrain(self, requested: (u32, u32)) -> (r: (u32, u32))
        requires
            self.minimum.0 <= self.maximum.0,
            self.minimum.1 <= self.maximum.1,
        ensures
            r.0 == max_int(
                clamp_int(requested.0 as int, self.minimum.0 as int, self.maximum.0 as int),
                1,
            ),
            r.1 == max_int(
                clamp_int(requested.1 as int, self.minimum.1 as int, self.maximum.1 as int),
                1,
            ),
            r == self.free_size(requested),
    {
        (
            clamp_at_least_one(requested.0, self.minimum.0, self.maximum.0),
            clamp_at_least_one(requested.1, self.minimum.1, self.maximum.1),
        )
    }

    /// Whether fixed-aspect negotiation is defined for this contract: a
    /// positive preferred size whose multiples can meet both bounds.
    pub fn can_constrain_fixed_aspect(self) -> (r: bool)
        ensures
            r == self.fixed_aspect_feasible(),
    {
        if self.preferred.0 < 1 || self.preferred.1 < 1 {
            return false;
        }
        proof {
            self.lemma_unit_positive();
        }
        let common = gcd(self.preferred.0, self.preferred.1);
        let unit_width = self.preferred.0 / common;
        let unit_height = self.preferred.1 / common;
        let min_w = ceil_div(self.minimum.0, unit_width);
        let min_h = ceil_div(self.minimum.1, unit_height);
        let minimum_multiplier = if min_w > min_h { min_w } else { min_h };
        let max_w = (self.maximum.0 / unit_width) as u64;
        let max_h = (self.maximum.1 / unit_height) as u64;
        let maximum_multiplier = if max_w < max_h { max_w } else { max_h };
        minimum_multiplier <= maximum_multiplier
    }

    /// Pick the whole multiple of the reduced preferred ratio that best fits
    /// a request, clamped to the multiples allowed by the bounds.
    pub fn constrain_fixed_aspect(self, requested: (u32, u32)) -> (r: (u32, u32))
        requires
            self.fixed_aspect_feasible(),
        ensures
            r.0 == self.unit().0 * self.fixed_aspect_multiplier(requested),
            r.1 == self.unit().1 * self.fixed_aspect_multiplier(requested),
            r == self.fixed_aspect_size(requested),
    {
        proof {
            self.lemma_unit_positive();
        }
        let common = gcd(self.preferred.0, self.preferred.1);
        let unit_width = self.preferred.0 / common;
        let unit_height = self.preferred.1 / common;
        let min_w = ceil_div(self.minimum.0, unit_width);
        let min_h = ceil_div(self.minimum.1, unit_height);
        let minimum_multiplier = if min_w > min_h { min_w } else { min_h };
        let max_w = (self.maximum.0 / unit_width) as u64;
        let max_h = (self.maximum.1 / unit_height) as u64;
        let maximum_multiplier = if max_w < max_h { max_w } else { max_h };
        let req_w = if requested.0 > 1 { requested.0 } else { 1 };
        let req_h = if requested.1 > 1 { requested.1 } else { 1 };
        let fit_w = (req_w / unit_width) as u64;
        let fit_h = (req_h / unit_height) as u64;
        let requested_multiplier = if fit_w < fit_h { fit_w } else { fit_h };
        let multiplier = if requested_multiplier < minimum_multiplier {
            minimum_multiplier
        } else if requested_multiplier > maximum_multiplier {
            maximum_multiplier
        } else {
            requested_multiplier
        };
        proof {
            lemma_div_bounds(self.maximum.0 as int, unit_width as int);
            lemma_div_bounds(self.maximum.1 as int, unit_height as int);
            assert(multiplier <= max_w);
            assert(multiplier <= max_h);
            assert(unit_width as int * multiplier as int <= self.maximum.0 as int) by (
            nonlinear_arith)
                requires
                    multiplier as int <= max_w as int,
                    max_w as int * unit_width as int <= self.maximum.0 as int,
                    unit_width > 0,
            ;
            assert(unit_height as int * multiplier as int <= self.maximum.1 as int) by (
            nonlinear_arith)
                requires
                    multiplier as int <= max_h as int,
                    max_h as int * unit_height as int <= self.maximum.1 as int,
                    unit_height > 0,
            ;
        }
        (((unit_width as u64) * multiplier) as u32, ((unit_height as u64) * multiplier) as u32)
    }

    /// The reduced unit of a positive preferred size is positive and exact.
    pub proof fn lemma_unit_positive(self)
        requires
            self.preferred.0 >= 1,
            self.preferred.1 >= 1,
        ensures
            self.unit().0 >= 1,
            self.unit().1 >= 1,
            self.unit().0 * gcd_spec(self.preferred.0 as nat, self.preferred.1 as nat)
                == self.preferred.0,
            self.unit().1 * gcd_spec(self.preferred.0 as nat, self.preferred.1 as nat)
                == self.preferred.1,
    {
        let p0 = self.preferred.0 as nat;
        let p1 = self.preferred.1 as nat;
        lemma_gcd_divides(p0, p1);
        let g = gcd_spec(p0, p1) as int;
        lemma_div_bounds(p0 as int, g);
        lemma_div_bounds(p1 as int, g);
        if p0 as int / g == 0 {
            assert(false);
        }
        if p1 as int / g == 0 {
            assert(false);
        }
    }
}

/// Every well-formed contract admits fixed-aspect negotiation: the
/// preferred size itself is a multiple of the reduced ratio inside the bounds.
pub proof fn lemma_well_formed_is_fixed_aspect_feasible(c: GpuiSizeContract)
    requires
        c.well_formed(),
    ensures
        c.fixed_aspect_feasible(),
        c.minimum_multiplier() >= 0,
{
    c.lemma_unit_positive();
    let g = gcd_spec(c.preferred.0 as nat, c.preferred.1 as nat) as int;
    let u = c.unit();
    lemma_ceil_div_is_smallest(c.minimum.0 as int, u.0, g);
    lemma_ceil_div_is_smallest(c.minimum.1 as int, u.1, g);
    lemma_div_is_largest(c.maximum.0 as int, u.0, g);
    lemma_div_is_largest(c.maximum.1 as int, u.1, g);
    assert(g * u.0 == u.0 * g) by (nonlinear_arith);
    assert(g * u.1 == u.1 * g) by (nonlinear_arith);
}

/// Under a well-formed contract a fixed-aspect result lies inside the
/// bounds and keeps exactly the preferred width-to-height ratio.
pub proof fn law_fixed_aspect_within_bounds_and_ratio(c: GpuiSizeContract, requested: (u32, u32))
    requires
        c.well_formed(),
    ensures
        c.minimum.0 <= c.fixed_aspect_size(requested).0 <= c.maximum.0,
        c.minimum.1 <= c.fixed_aspect_size(requested).1 <= c.maximum.1,
        c.fixed_aspect_size(requested).0 as int * c.preferred.1 as int
            == c.fixed_aspect_size(requested).1 as int * c.preferred.0 as int,
        c.fixed_aspect_size(requested).0 == c.unit().0 * c.fixed_aspect_multiplier(requested),
        c.fixed_aspect_size(requested).1 == c.unit().1 * c.fixed_aspect_multiplier(requested),
{
    lemma_well_formed_is_fixed_aspect_feasible(c);
    c.lemma_unit_positive();
    let g = gcd_spec(c.preferred.0 as nat, c.preferred.1 as nat) as int;
    let u = c.unit();
    let m = c.fixed_aspect_multiplier(requested);
    assert(c.minimum_multiplier() <= m <= c.maximum_multiplier());
    lemma_ceil_div_is_smallest(c.minimum.0 as int, u.0, m);
    lemma_ceil_div_is_smallest(c.minimum.1 as int, u.1, m);
    lemma_div_is_largest(c.maximum.0 as int, u.0, m);
    lemma_div_is_largest(c.maximum.1 as int, u.1, m);
    assert(m * u.0 == u.0 * m) by (nonlinear_arith);
    assert(m * u.1 == u.1 * m) by (nonlinear_arith);
    assert((u.0 * m) * (u.1 * g) == (u.1 * m) * (u.0 * g)) by (nonlinear_arith);
}

/// Negotiating an already negotiated fixed-aspect size returns it unchanged.
pub proof fn law_fixed_aspect_idempotent(c: GpuiSizeContract, requested: (u32, u32))
    requires
        c.well_formed(),
    ensures
        c.fixed_aspect_size(c.fixed_aspect_size(requested)) == c.fixed_aspect_size(requested),
{
    law_fixed_aspect_within_bounds_and_ratio(c, requested);
    lemma_well_formed_is_fixed_aspect_feasible(c);
    c.lemma_unit_positive();
    let u = c.unit();
    let m = c.fixed_aspect_multiplier(requested);
    let r = c.fixed_aspect_size(requested);
    lemma_mul_div_cancel(m, u.0);
    lemma_mul_div_cancel(m, u.1);
    assert(r.0 as int == u.0 * m);
    assert(r.1 as int == u.1 * m);
    assert(max_int(r.0 as int, 1) / u.0 == m);
    assert(max_int(r.1 as int, 1) / u.1 == m);
    assert(c.fitting_multiplier(r) == m);
}

/// Free-aspect negotiation under a well-formed contract lands inside the
/// bounds and is unchanged by a second negotiation.
pub proof fn law_free_aspect_within_bounds_and_idempotent(
    c: GpuiSizeContract,
    requested: (u32, u32),
)
    requires
        c.well_formed(),
    ensures
        c.minimum.0 <= c.free_size(requested).0 <= c.maximum.0,
        c.minimum.1 <= c.free_size(requested).1 <= c.maximum.1,
        c.free_size(c.free_size(requested)) == c.free_size(requested),
{
}

/// Clamp `value` into `[low, high]`, then raise it to at least one.
fn clamp_at_least_one(value: u32, low: u32, high: u32) -> (r: u32)
    requires
        low <= high,
    ensures
        r == max_int(clamp_int(value as int, low as int, high as int), 1),
{
    let clamped = if value < low {
        low
    } else if value > high {
        high
    } else {
        value
    };
    if clamped > 1 {
        clamped
    } else {
        1
    }
}


/// A non-negative scale factor written as `numerator / denominator`, with a
/// positive denominator.
pub type Scale = (int, int);

/// `a <= b` for scales with positive denominators.
pub open spec fn scale_le(a: Scale, b: Scale) -> bool {
    a.0 * b.1 <= b.0 * a.1
}

/// `a < b` for scales with positive denominators.
pub open spec fn scale_lt(a: Scale, b: Scale) -> bool {
    !scale_le(b, a)
}

/// The larger of two scales.
pub open spec fn scale_max(a: Scale, b: Scale) -> Scale {
    if scale_lt(a, b) {
        b
    } else {
        a
    }
}

/// The smaller of two scales.
pub open spec fn scale_min(a: Scale, b: Scale) -> Scale {
    if scale_lt(b, a) {
        b
    } else {
        a
    }
}

/// `value` limited to `[low, high]`.
pub open spec fn scale_clamp(value: Scale, low: Scale, high: Scale) -> Scale {
    if scale_lt(value, low) {
        low
    } else if scale_lt(high, value) {
        high
    } else {
        value
    }
}

/// `numerator / denominator` rounded to the nearest integer, halves upward.
pub open spec fn round_div(numerator: int, denominator: int) -> int {
    (2 * numerator + denominator) / (2 * denominator)
}

/// Inclusive logical size contract shared by embedded Radiant hosts.
#[derive(Clone, Copy, Debug, PartialEq, Eq)]
pub struct EditorSizeContract {
    /// Default logical editor size.
    pub default: (u32, u32),
    /// Minimum supported logical editor size.
    pub minimum: (u32, u32),
    /// Maximum supported logical editor size.
    pub maximum: (u32, u32),
}

impl EditorSizeContract {
    /// Bounds ordered as `1 <= minimum <= default <= maximum` in each axis.
    pub open spec fn well_formed(self) -> bool {
        &&& 1 <= self.minimum.0 <= self.default.0 <= self.maximum.0
        &&& 1 <= self.minimum.1 <= self.default.1 <= self.maximum.1
    }

    /// Smallest scale of the default size that reaches both minimum axes.
    pub open spec fn minimum_scale(self) -> Scale {
        scale_max(
            (self.minimum.0 as int, self.default.0 as int),
            (self.minimum.1 as int, self.default.1 as int),
        )
    }

    /// Largest scale of the default size that fits both maximum axes.
    pub open spec fn maximum_scale(self) -> Scale {
        scale_min(
            (self.maximum.0 as int, self.default.0 as int),
            (self.maximum.1 as int, self.default.1 as int),
        )
    }

    /// Largest scale of the default size that fits inside a request (each
    /// axis taken as at least one).
    pub open spec fn requested_scale(self, requested: (u32, u32)) -> Scale {
        scale_min(
            (max_int(requested.0 as int, 1), self.default.0 as int),
            (max_int(requested.1 as int, 1), self.default.1 as int),
        )
    }

    /// The scale applied to the default size for a request.
    pub open spec fn chosen_scale(self, requested: (u32, u32)) -> Scale {
        scale_clamp(self.requested_scale(requested), self.minimum_scale(), self.maximum_scale())
    }

    /// The size a request is constrained to: the default size scaled by the
    /// chosen scale and rounded, then clamped into the bounds.
    pub open spec fn constrained_size(self, requested: (u32, u32)) -> (u32, u32) {
        let s = self.chosen_scale(requested);
        (
            max_int(
                clamp_int(
                    round_div(self.default.0 * s.0, s.1),
                    self.minimum.0 as int,
                    self.maximum.0 as int,
                ),
                1,
            ) as u32,
            max_int(
                clamp_int(
                    round_div(self.default.1 * s.0, s.1),
                    self.minimum.1 as int,
                    self.maximum.1 as int,
                ),
                1,
            ) as u32,
        )
    }

    /// Contracts on which `constrain` is defined: a positive default size,
    /// ordered bounds and a scale interval that is not empty.
    pub open spec fn constrain_defined(self) -> bool {
        &&& self.default.0 >= 1
        &&& self.default.1 >= 1
        &&& self.minimum.0 <= self.maximum.0
        &&& self.minimum.1 <= self.maximum.1
        &&& scale_le(self.minimum_scale(), self.maximum_scale())
    }

    /// The contract `new` builds from its arguments.
    pub open spec fn new_spec(default: (u32, u32), minimum: (u32, u32), maximum: (u32, u32)) -> Self {
        let d0 = max_int(default.0 as int, 1);
        let d1 = max_int(default.1 as int, 1);
        EditorSizeContract {
            default: (d0 as u32, d1 as u32),
            minimum: (
                min_int(max_int(minimum.0 as int, 1), d0) as u32,
                min_int(max_int(minimum.1 as int, 1), d1) as u32,
            ),
            maximum: (max_int(maximum.0 as int, d0) as u32, max_int(maximum.1 as int, d1) as u32),
        }
    }

    /// Construct an ordered contract, retaining the default inside its bounds.
    pub fn new(default: (u32, u32), minimum: (u32, u32), maximum: (u32, u32)) -> (c: Self)
        ensures
            c == Self::new_spec(default, minimum, maximum),
            c.default.0 == max_int(default.0 as int, 1),
            c.default.1 == max_int(default.1 as int, 1),
            c.minimum.0 == min_int(max_int(minimum.0 as int, 1), c.default.0 as int),
            c.minimum.1 == min_int(max_int(minimum.1 as int, 1), c.default.1 as int),
            c.maximum.0 == max_int(maximum.0 as int, c.default.0 as int),
            c.maximum.1 == max_int(maximum.1 as int, c.default.1 as int),
            c.well_formed(),
    {
        let default = (
            if default.0 > 1 { default.0 } else { 1 },
            if default.1 > 1 { default.1 } else { 1 },
        );
        let min0 = if minimum.0 > 1 { minimum.0 } else { 1 };
        let min1 = if minimum.1 > 1 { minimum.1 } else { 1 };
        let minimum = (
            if min0 < default.0 { min0 } else { default.0 },
            if min1 < default.1 { min1 } else { default.1 },
        );
        let max0 = if maximum.0 > default.0 { maximum.0 } else { default.0 };
        let max1 = if maximum.1 > default.1 { maximum.1 } else { default.1 };
        let maximum = (
            if max0 > minimum.0 { max0 } else { minimum.0 },
            if max1 > minimum.1 { max1 } else { minimum.1 },
        );
        EditorSizeContract { default, minimum, maximum }
    }

    /// Clamp a host request while preserving the contract's default aspect ratio.
    pub fn constrain(&self, requested: (u32, u32)) -> (r: (u32, u32))
        requires
            self.constrain_defined(),
        ensures
            r == self.constrained_size(requested),
    {
        let dw = self.default.0 as u64;
        let dh = self.default.1 as u64;
        let min_scale = scale_max_exec((self.minimum.0 as u64, dw), (self.minimum.1 as u64, dh));
        let max_scale = scale_min_exec((self.maximum.0 as u64, dw), (self.maximum.1 as u64, dh));
        let rw = if requested.0 > 1 { requested.0 } else { 1 };
        let rh = if requested.1 > 1 { requested.1 } else { 1 };
        let requested_scale = scale_min_exec((rw as u64, dw), (rh as u64, dh));
        let scale = if scale_lt_exec(requested_scale, min_scale) {
            min_scale
        } else if scale_lt_exec(max_scale, requested_scale) {
            max_scale
        } else {
            requested_scale
        };
        (
            scaled_axis(dw, scale, self.minimum.0, self.maximum.0),
            scaled_axis(dh, scale, self.minimum.1, self.maximum.1),
        )
    }
}

/// Executable `scale_lt` on scales whose parts fit in 32 bits.
fn scale_lt_exec(a: (u64, u64), b: (u64, u64)) -> (r: bool)
    requires
        a.0 <= u32::MAX,
        a.1 <= u32::MAX,
        b.0 <= u32::MAX,
        b.1 <= u32::MAX,
    ensures
        r == scale_lt((a.0 as int, a.1 as int), (b.0 as int, b.1 as int)),
{
    proof {
        assert(b.0 * a.1 <= u32::MAX * u32::MAX) by (nonlinear_arith)
            requires
                a.1 <= u32::MAX,
                b.0 <= u32::MAX,
        ;
        assert(a.0 * b.1 <= u32::MAX * u32::MAX) by (nonlinear_arith)
            requires
                a.0 <= u32::MAX,
                b.1 <= u32::MAX,
        ;
    }
    !(b.0 * a.1 <= a.0 * b.1)
}

/// Executable `scale_max`.
fn scale_max_exec(a: (u64, u64), b: (u64, u64)) -> (r: (u64, u64))
    requires
        a.0 <= u32::MAX,
        a.1 <= u32::MAX,
        b.0 <= u32::MAX,
        b.1 <= u32::MAX,
    ensures
        (r.0 as int, r.1 as int) == scale_max((a.0 as int, a.1 as int), (b.0 as int, b.1 as int)),
        r == a || r == b,
{
    if scale_lt_exec(a, b) {
        b
    } else {
        a
    }
}

/// Executable `scale_min`.
fn scale_min_exec(a: (u64, u64), b: (u64, u64)) -> (r: (u64, u64))
    requires
        a.0 <= u32::MAX,
        a.1 <= u32::MAX,
        b.0 <= u32::MAX,
        b.1 <= u32::MAX,
    ensures
        (r.0 as int, r.1 as int) == scale_min((a.0 as int, a.1 as int), (b.0 as int, b.1 as int)),
        r == a || r == b,
{
    if scale_lt_exec(b, a) {
        b
    } else {
        a
    }
}

/// One axis of a scaled default size, rounded and clamped into `[low, high]`
/// and raised to at least one.
fn scaled_axis(base: u64, scale: (u64, u64), low: u32, high: u32) -> (r: u32)
    requires
        base <= u32::MAX,
        scale.0 <= u32::MAX,
        1 <= scale.1 <= u32::MAX,
        low <= high,
    ensures
        r == max_int(
            clamp_int(round_div(base * scale.0, scale.1 as int), low as int, high as int),
            1,
        ),
{
    proof {
        assert(base * scale.0 <= u32::MAX * u32::MAX) by (nonlinear_arith)
            requires
                base <= u32::MAX,
                scale.0 <= u32::MAX,
        ;
    }
    let numerator = (base as u128) * (scale.0 as u128);
    let denominator = scale.1 as u128;
    let rounded = (2 * numerator + denominator) / (2 * denominator);
    let clamped = if rounded < low as u128 {
        low
    } else if rounded > high as u128 {
        high
    } else {
        rounded as u32
    };
    if clamped > 1 {
        clamped
    } else {
        1
    }
}

/// Every well-formed editor contract can constrain requests.
pub proof fn lemma_well_formed_editor_contract_is_defined(c: EditorSizeContract)
    requires
        c.well_formed(),
    ensures
        c.constrain_defined(),
        scale_le(c.minimum_scale(), (1, 1)),
        scale_le((1, 1), c.maximum_scale()),
{
    let lo = c.minimum_scale();
    let hi = c.maximum_scale();
    assert(lo.0 <= lo.1 && lo.1 >= 1);
    assert(hi.0 >= hi.1 && hi.1 >= 1);
    assert(lo.0 * hi.1 <= hi.0 * lo.1) by (nonlinear_arith)
        requires
            0 <= lo.0 <= lo.1,
            1 <= hi.1 <= hi.0,
    ;
}

/// Rounding `a * b / b` gives back `a`.
proof fn lemma_round_div_exact(a: int, b: int)
    requires
        0 <= a,
        0 < b,
    ensures
        round_div(a * b, b) == a,
{
    assert(2 * (a * b) + b == a * (2 * b) + b) by (nonlinear_arith);
    vstd::arithmetic::div_mod::lemma_fundamental_div_mod_converse_div(2 * (a * b) + b, 2 * b, a, b);
}

/// Requesting the default size of a well-formed contract yields exactly the
/// default size.
pub proof fn law_editor_contract_preserves_default(c: EditorSizeContract)
    requires
        c.well_formed(),
    ensures
        c.constrained_size(c.default) == c.default,
{
    lemma_well_formed_editor_contract_is_defined(c);
    let req = c.requested_scale(c.default);
    assert(req == (c.default.0 as int, c.default.0 as int) || req == (
    c.default.1 as int, c.default.1 as int));
    let lo = c.minimum_scale();
    let hi = c.maximum_scale();
    assert(!scale_lt(req, lo)) by (nonlinear_arith)
        requires
            req.0 == req.1,
            req.1 >= 1,
            lo.0 <= lo.1,
            lo.1 >= 1,
    ;
    assert(!scale_lt(hi, req)) by (nonlinear_arith)
        requires
            req.0 == req.1,
            req.1 >= 1,
            hi.0 >= hi.1,
            hi.1 >= 1,
    ;
    assert(c.chosen_scale(c.default) == req);
    lemma_round_div_exact(c.default.0 as int, req.1);
    lemma_round_div_exact(c.default.1 as int, req.1);
}

/// A constrained size always lies inside the bounds of a well-formed contract.
pub proof fn law_editor_contract_within_bounds(c: EditorSizeContract, requested: (u32, u32))
    requires
        c.well_formed(),
    ensures
        c.minimum.0 <= c.constrained_size(requested).0 <= c.maximum.0,
        c.minimum.1 <= c.constrained_size(requested).1 <= c.maximum.1,
{
}

proof fn lemma_scale_le_trans(a: Scale, b: Scale, c: Scale)
    requires
        a.1 > 0,
        b.1 > 0,
        c.1 > 0,
        scale_le(a, b),
        scale_le(b, c),
    ensures
        scale_le(a, c),
{
    assert(a.0 * b.1 * c.1 <= b.0 * a.1 * c.1) by (nonlinear_arith)
        requires
            a.0 * b.1 <= b.0 * a.1,
            c.1 > 0,
    ;
    assert(b.0 * c.1 * a.1 <= c.0 * b.1 * a.1) by (nonlinear_arith)
        requires
            b.0 * c.1 <= c.0 * b.1,
            a.1 > 0,
    ;
    assert(a.0 * c.1 * b.1 <= c.0 * a.1 * b.1) by (nonlinear_arith)
        requires
            a.0 * b.1 * c.1 <= b.0 * a.1 * c.1,
            b.0 * c.1 * a.1 <= c.0 * b.1 * a.1,
    ;
    assert(a.0 * c.1 <= c.0 * a.1) by (nonlinear_arith)
        requires
            a.0 * c.1 * b.1 <= c.0 * a.1 * b.1,
            b.1 > 0,
    ;
}

proof fn lemma_scale_min_monotone(a: Scale, b: Scale, c: Scale, d: Scale)
    requires
        a.1 > 0,
        b.1 > 0,
        c.1 > 0,
        d.1 > 0,
        scale_le(a, c),
        scale_le(b, d),
    ensures
        scale_le(scale_min(a, b), scale_min(c, d)),
{
    let m = scale_min(a, b);
    assert(scale_le(m, a));
    assert(scale_le(m, b));
    lemma_scale_le_trans(m, a, c);
    lemma_scale_le_trans(m, b, d);
}

proof fn lemma_scale_clamp_monotone(s: Scale, t: Scale, lo: Scale, hi: Scale)
    requires
        s.1 > 0,
        t.1 > 0,
        lo.1 > 0,
        hi.1 > 0,
        scale_le(s, t),
        scale_le(lo, hi),
    ensures
        scale_le(scale_clamp(s, lo, hi), scale_clamp(t, lo, hi)),
{
    if scale_lt(s, lo) {
        assert(scale_clamp(s, lo, hi) == lo);
        if scale_lt(t, lo) {
            assert(scale_le(lo, lo));
        } else if scale_lt(hi, t) {
            assert(scale_le(lo, hi));
        } else {
            assert(scale_clamp(t, lo, hi) == t);
            assert(scale_le(lo, t));
        }
    } else if scale_lt(hi, s) {
        assert(scale_clamp(s, lo, hi) == hi);
        if scale_lt(t, lo) {
            lemma_scale_le_trans(lo, hi, s);
            lemma_scale_le_trans(lo, s, t);
        } else if !scale_lt(hi, t) {
            lemma_scale_le_trans(s, t, hi);
        }
        assert(scale_le(hi, hi));
    } else {
        assert(scale_clamp(s, lo, hi) == s);
        if scale_lt(t, lo) {
            lemma_scale_le_trans(lo, s, t);
        } else if scale_lt(hi, t) {
            assert(scale_le(s, hi));
        } else {
            assert(scale_le(s, t));
        }
    }
}

/// Floor division is monotone in the quotient it approximates.
proof fn lemma_div_monotone_in_ratio(a: int, b: int, c: int, e: int)
    requires
        0 <= a,
        0 <= c,
        b > 0,
        e > 0,
        a * e <= c * b,
    ensures
        a / b <= c / e,
{
    let q = a / b;
    crate::arith::lemma_div_bounds(a, b);
    assert(q >= 0);
    assert(q * b * e <= a * e) by (nonlinear_arith)
        requires
            q * b <= a,
            e > 0,
    ;
    assert(q * e * b <= c * b) by (nonlinear_arith)
        requires
            q * b * e <= a * e,
            a * e <= c * b,
    ;
    assert(q * e <= c) by (nonlinear_arith)
        requires
            q * e * b <= c * b,
            b > 0,
    ;
    crate::arith::lemma_div_is_largest(c, e, q);
}

proof fn lemma_round_scaled_monotone(d: int, s: Scale, t: Scale)
    requires
        d >= 0,
        s.0 >= 0,
        t.0 >= 0,
        s.1 > 0,
        t.1 > 0,
        scale_le(s, t),
    ensures
        round_div(d * s.0, s.1) <= round_div(d * t.0, t.1),
{
    let a = 2 * (d * s.0) + s.1;
    let c = 2 * (d * t.0) + t.1;
    assert(d * s.0 >= 0 && d * t.0 >= 0) by (nonlinear_arith)
        requires
            d >= 0,
            s.0 >= 0,
            t.0 >= 0,
    ;
    assert(a * (2 * t.1) <= c * (2 * s.1)) by (nonlinear_arith)
        requires
            a == 2 * (d * s.0) + s.1,
            c == 2 * (d * t.0) + t.1,
            s.0 * t.1 <= t.0 * s.1,
            d >= 0,
    ;
    lemma_div_monotone_in_ratio(a, 2 * s.1, c, 2 * t.1);
}

proof fn lemma_request_scale_component_monotone(q1: u32, q2: u32, d: int)
    requires
        q1 <= q2,
        d >= 1,
    ensures
        scale_le((max_int(q1 as int, 1), d), (max_int(q2 as int, 1), d)),
{
    let a = max_int(q1 as int, 1);
    let b = max_int(q2 as int, 1);
    assert(a * d <= b * d) by (nonlinear_arith)
        requires
            a <= b,
            d >= 1,
    ;
}

/// A larger request never gets a smaller size: constraining is monotone in
/// each axis of the request.
pub proof fn law_editor_contract_is_monotone(
    c: EditorSizeContract,
    smaller: (u32, u32),
    larger: (u32, u32),
)
    requires
        c.well_formed(),
        smaller.0 <= larger.0,
        smaller.1 <= larger.1,
    ensures
        c.constrained_size(smaller).0 <= c.constrained_size(larger).0,
        c.constrained_size(smaller).1 <= c.constrained_size(larger).1,
{
    lemma_well_formed_editor_contract_is_defined(c);
    let d0 = c.default.0 as int;
    let d1 = c.default.1 as int;
    lemma_request_scale_component_monotone(smaller.0, larger.0, d0);
    lemma_request_scale_component_monotone(smaller.1, larger.1, d1);
    lemma_scale_min_monotone(
        (max_int(smaller.0 as int, 1), d0),
        (max_int(smaller.1 as int, 1), d1),
        (max_int(larger.0 as int, 1), d0),
        (max_int(larger.1 as int, 1), d1),
    );
    let s = c.chosen_scale(smaller);
    let t = c.chosen_scale(larger);
    lemma_scale_clamp_monotone(
        c.requested_scale(smaller),
        c.requested_scale(larger),
        c.minimum_scale(),
        c.maximum_scale(),
    );
    assert(s.1 > 0 && t.1 > 0 && s.0 >= 0 && t.0 >= 0);
    lemma_round_scaled_monotone(d0, s, t);
    lemma_round_scaled_monotone(d1, s, t);
}

/// Under a well-formed contract, when some whole multiple of the reduced
/// preferred ratio fits both the bounds and the request, the fixed-aspect
/// result fits the request too and is the largest such multiple.
pub proof fn law_fixed_aspect_is_largest_fitting_multiple(
    c: GpuiSizeContract,
    requested: (u32, u32),
    m: int,
)
    requires
        c.well_formed(),
        m >= 0,
        c.minimum.0 <= c.unit().0 * m <= c.maximum.0,
        c.minimum.1 <= c.unit().1 * m <= c.maximum.1,
        c.unit().0 * m <= max_int(requested.0 as int, 1),
        c.unit().1 * m <= max_int(requested.1 as int, 1),
    ensures
        c.fixed_aspect_size(requested).0 <= max_int(requested.0 as int, 1),
        c.fixed_aspect_size(requested).1 <= max_int(requested.1 as int, 1),
        c.unit().0 * m <= c.fixed_aspect_size(requested).0,
        c.unit().1 * m <= c.fixed_aspect_size(requested).1,
{
    law_fixed_aspect_within_bounds_and_ratio(c, requested);
    c.lemma_unit_positive();
    let u = c.unit();
    let q0 = max_int(requested.0 as int, 1);
    let q1 = max_int(requested.1 as int, 1);
    assert(m * u.0 == u.0 * m && m * u.1 == u.1 * m) by (nonlinear_arith);
    lemma_div_is_largest(q0, u.0, m);
    lemma_div_is_largest(q1, u.1, m);
    lemma_div_is_largest(c.maximum.0 as int, u.0, m);
    lemma_div_is_largest(c.maximum.1 as int, u.1, m);
    lemma_ceil_div_is_smallest(c.minimum.0 as int, u.0, m);
    lemma_ceil_div_is_smallest(c.minimum.1 as int, u.1, m);
    let f = c.fitting_multiplier(requested);
    let k = c.fixed_aspect_multiplier(requested);
    assert(m <= f);
    assert(c.minimum_multiplier() <= m <= c.maximum_multiplier());
    assert(m <= k && k <= f);
    crate::arith::lemma_div_bounds(q0, u.0);
    crate::arith::lemma_div_bounds(q1, u.1);
    assert(u.0 * k <= q0) by (nonlinear_arith)
        requires
            k <= q0 / u.0,
            (q0 / u.0) * u.0 <= q0,
            u.0 > 0,
    ;
    assert(u.1 * k <= q1) by (nonlinear_arith)
        requires
            k <= q1 / u.1,
            (q1 / u.1) * u.1 <= q1,
            u.1 > 0,
    ;
    assert(u.0 * m <= u.0 * k && u.1 * m <= u.1 * k) by (nonlinear_arith)
        requires
            m <= k,
            u.0 > 0,
            u.1 > 0,
    ;
}

proof fn lemma_round_div_error(a: int, b: int)
    requires
        a >= 0,
        b > 0,
    ensures
        -b < 2 * b * round_div(a, b) - 2 * a <= b,
{
    let r = round_div(a, b);
    crate::arith::lemma_div_bounds(2 * a + b, 2 * b);
    assert(r * (2 * b) <= 2 * a + b < r * (2 * b) + 2 * b);
    assert(2 * b * r == r * (2 * b)) by (nonlinear_arith);
}

/// The default aspect ratio is kept up to rounding: the result's
/// width-to-height ratio differs from the default's by at most half a point
/// on each axis, `2 * |w * default_h - h * default_w| <= default_w +
/// default_h`.
pub proof fn law_editor_contract_keeps_default_aspect(c: EditorSizeContract, requested: (u32, u32))
    requires
        c.well_formed(),
    ensures
        ({
            let r = c.constrained_size(requested);
            let diff = r.0 * c.default.1 - r.1 * c.default.0;
            &&& 2 * diff <= c.default.0 + c.default.1
            &&& -2 * diff <= c.default.0 + c.default.1
        }),
{
    lemma_well_formed_editor_contract_is_defined(c);
    lemma_rounded_scale_within_bounds(c, requested);
    let s = c.chosen_scale(requested);
    let d0 = c.default.0 as int;
    let d1 = c.default.1 as int;
    assert(s.1 > 0 && s.0 >= 0);
    let a = d0 * s.0;
    let b = d1 * s.0;
    assert(a >= 0 && b >= 0) by (nonlinear_arith)
        requires
            a == d0 * s.0,
            b == d1 * s.0,
            d0 >= 1,
            d1 >= 1,
            s.0 >= 0,
    ;
    lemma_round_div_error(a, s.1);
    lemma_round_div_error(b, s.1);
    let w = round_div(a, s.1);
    let h = round_div(b, s.1);
    let r = c.constrained_size(requested);
    assert(r.0 == w && r.1 == h);
    let e0 = 2 * s.1 * w - 2 * a;
    let e1 = 2 * s.1 * h - 2 * b;
    assert(2 * s.1 * (w * d1 - h * d0) == e0 * d1 - e1 * d0) by (nonlinear_arith)
        requires
            e0 == 2 * s.1 * w - 2 * a,
            e1 == 2 * s.1 * h - 2 * b,
            a == d0 * s.0,
            b == d1 * s.0,
    ;
    assert(-(s.1 * (d0 + d1)) <= e0 * d1 - e1 * d0 <= s.1 * (d0 + d1)) by (nonlinear_arith)
        requires
            -s.1 < e0 <= s.1,
            -s.1 < e1 <= s.1,
            d0 >= 1,
            d1 >= 1,
    ;
    let diff = w * d1 - h * d0;
    assert(2 * diff <= d0 + d1 && -2 * diff <= d0 + d1) by (nonlinear_arith)
        requires
            2 * s.1 * diff <= s.1 * (d0 + d1),
            -(s.1 * (d0 + d1)) <= 2 * s.1 * diff,
            s.1 > 0,
    ;
}

/// The default size scaled by the chosen scale and rounded already lies
/// inside the bounds of a well-formed contract.
proof fn lemma_rounded_scale_within_bounds(c: EditorSizeContract, requested: (u32, u32))
    requires
        c.well_formed(),
    ensures
        ({
            let s = c.chosen_scale(requested);
            &&& c.minimum.0 <= round_div(c.default.0 * s.0, s.1) <= c.maximum.0
            &&& c.minimum.1 <= round_div(c.default.1 * s.0, s.1) <= c.maximum.1
        }),
{
    lemma_well_formed_editor_contract_is_defined(c);
    let lo = c.minimum_scale();
    let hi = c.maximum_scale();
    let req = c.requested_scale(requested);
    let s = c.chosen_scale(requested);
    let d0 = c.default.0 as int;
    let d1 = c.default.1 as int;
    let min0: Scale = (c.minimum.0 as int, d0);
    let min1: Scale = (c.minimum.1 as int, d1);
    let max0: Scale = (c.maximum.0 as int, d0);
    let max1: Scale = (c.maximum.1 as int, d1);
    assert(scale_le(min0, lo) && scale_le(min1, lo));
    assert(scale_le(hi, max0) && scale_le(hi, max1));
    assert(scale_le(lo, s) && scale_le(s, hi));
    assert(s.1 > 0 && s.0 >= 0 && lo.1 > 0 && hi.1 > 0);
    lemma_scale_le_trans(min0, lo, s);
    lemma_scale_le_trans(min1, lo, s);
    lemma_scale_le_trans(s, hi, max0);
    lemma_scale_le_trans(s, hi, max1);
    lemma_round_scaled_monotone(d0, min0, s);
    lemma_round_scaled_monotone(d1, min1, s);
    lemma_round_scaled_monotone(d0, s, max0);
    lemma_round_scaled_monotone(d1, s, max1);
    lemma_round_div_exact(c.minimum.0 as int, d0);
    lemma_round_div_exact(c.minimum.1 as int, d1);
    lemma_round_div_exact(c.maximum.0 as int, d0);
    lemma_round_div_exact(c.maximum.1 as int, d1);
    assert(d0 * min0.0 == min0.0 * d0 && d1 * min1.0 == min1.0 * d1) by (nonlinear_arith);
    assert(d0 * max0.0 == max0.0 * d0 && d1 * max1.0 == max1.0 * d1) by (nonlinear_arith);
}

/// Under a well-formed contract, every size with exactly the preferred
/// width-to-height ratio that fits both the bounds and the request is at
/// most the fixed-aspect result, which fits the request as well: the result
/// is the largest exact-ratio size inside the request.
pub proof fn law_fixed_aspect_is_largest_exact_ratio_fit(
    c: GpuiSizeContract,
    requested: (u32, u32),
    size: (u32, u32),
)
    requires
        c.well_formed(),
        size.0 as int * c.preferred.1 as int == size.1 as int * c.preferred.0 as int,
        c.minimum.0 <= size.0 <= c.maximum.0,
        c.minimum.1 <= size.1 <= c.maximum.1,
        size.0 <= max_int(requested.0 as int, 1),
        size.1 <= max_int(requested.1 as int, 1),
    ensures
        c.fixed_aspect_size(requested).0 <= max_int(requested.0 as int, 1),
        c.fixed_aspect_size(requested).1 <= max_int(requested.1 as int, 1),
        size.0 <= c.fixed_aspect_size(requested).0,
        size.1 <= c.fixed_aspect_size(requested).1,
{
    let p0 = c.preferred.0 as nat;
    let p1 = c.preferred.1 as nat;
    let g = gcd_spec(p0, p1) as int;
    lemma_gcd_divides(p0, p1);
    c.lemma_unit_positive();
    let u = c.unit();
    vstd::arithmetic::div_mod::lemma_fundamental_div_mod(p0 as int, g);
    vstd::arithmetic::div_mod::lemma_fundamental_div_mod(p1 as int, g);
    assert(p0 == u.0 * g && p1 == u.1 * g) by (nonlinear_arith)
        requires
            p0 == g * (p0 as int / g) + p0 as int % g,
            p1 == g * (p1 as int / g) + p1 as int % g,
            p0 as int % g == 0,
            p1 as int % g == 0,
            u.0 == p0 as int / g,
            u.1 == p1 as int / g,
    ;
    let (x, y) = crate::arith::lemma_bezout(p0, p1);
    let s0 = size.0 as int;
    let s1 = size.1 as int;
    let m = s0 * x + s1 * y;
    assert(u.0 * m * g == s0 * g) by (nonlinear_arith)
        requires
            p0 * x + p1 * y == g,
            s0 * p1 == s1 * p0,
            p0 == u.0 * g,
            m == s0 * x + s1 * y,
    ;
    assert(u.1 * m * g == s1 * g) by (nonlinear_arith)
        requires
            p0 * x + p1 * y == g,
            s0 * p1 == s1 * p0,
            p1 == u.1 * g,
            m == s0 * x + s1 * y,
    ;
    assert(u.0 * m == s0 && u.1 * m == s1) by (nonlinear_arith)
        requires
            u.0 * m * g == s0 * g,
            u.1 * m * g == s1 * g,
            g > 0,
    ;
    assert(m >= 0) by (nonlinear_arith)
        requires
            u.0 * m == s0,
            s0 >= 1,
            u.0 >= 1,
    ;
    law_fixed_aspect_is_largest_fitting_multiple(c, requested, m);
}

} // verus!
