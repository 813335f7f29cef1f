use vstd::prelude::*;

verus! {

/// The value of `x` saturated into the range of `i64`.
pub open spec fn sat_i64(x: int) -> int {
    if x > i64::MAX {
        i64::MAX as int
    } else if x < i64::MIN {
        i64::MIN as int
    } else {
        x
    }
}

/// `x` clamped into `[lo, hi]` (meaningful when `lo <= hi`).
pub open spec fn clamp_spec(x: int, lo: int, hi: int) -> int {
    if x < lo {
        lo
    } else if x > hi {
        hi
    } else {
        x
    }
}

/// Saturating addition of two `i64` values.
pub fn sat_add_i64(a: i64, b: i64) -> (r: i64)
    ensures
        r == sat_i64(a + b),
{
    match a.checked_add(b) {
        Some(v) => v,
        None => {
            if a > 0 {
                i64::MAX
            } else {
                i64::MIN
            }
        },
    }
}

/// Saturating subtraction of two `i64` values.
pub fn sat_sub_i64(a: i64, b: i64) -> (r: i64)
    ensures
        r == sat_i64(a - b),
{
    match a.checked_sub(b) {
        Some(v) => v,
        None => {
            if b < 0 {
                i64::MAX
            } else {
                i64::MIN
            }
        },
    }
}

/// Clamps `x` into `[lo, hi]`; `lo <= hi` is required, as `i64::clamp` asserts.
pub fn clamp_i64(x: i64, lo: i64, hi: i64) -> (r: i64)
    requires
        lo <= hi,
    ensures
        r == clamp_spec(x as int, lo as int, hi as int),
{
    if x < lo {
        lo
    } else if x > hi {
        hi
    } else {
        x
    }
}

/// A closed range of 64-bit integers `[min, max]`.
#[derive(Debug, Clone, Copy, PartialEq, Eq, Structural)]
pub struct Interval {
    pub min: i64,
    pub max: i64,
}

impl Interval {
    /// Membership of a mathematical integer in the interval.
    pub open spec fn has(self, v: int) -> bool {
        self.min <= v <= self.max
    }

    /// Inclusion of one interval's bounds within another's.
    pub open spec fn within(self, other: Interval) -> bool {
        self.min >= other.min && self.max <= other.max
    }

    pub fn new(min: i64, max: i64) -> (r: Self)
        ensures
            r.min == min,
            r.max == max,
    {
        Interval { min, max }
    }

    pub fn point(val: i64) -> (r: Self)
        ensures
            r.min == val,
            r.max == val,
    {
        Interval { min: val, max: val }
    }

    pub fn is_subset_of(&self, other: &Interval) -> (r: bool)
        ensures
            r == self.within(*other),
    {
        self.min >= other.min && self.max <= other.max
    }

    pub fn contains(&self, val: i64) -> (r: bool)
        ensures
            r == self.has(val as int),
    {
        val >= self.min && val <= self.max
    }

    /// Interval addition; each bound saturates at the limits of `i64`.
    pub fn add(&self, other: &Interval) -> (r: Self)
        ensures
            r.min == sat_i64(self.min + other.min),
            r.max == sat_i64(self.max + other.max),
    {
        Interval { min: sat_add_i64(self.min, other.min), max: sat_add_i64(self.max, other.max) }
    }

    /// Interval subtraction; each bound saturates at the limits of `i64`.
    pub fn sub(&self, other: &Interval) -> (r: Self)
        ensures
            r.min == sat_i64(self.min - other.max),
            r.max == sat_i64(self.max - other.min),
    {
        Interval { min: sat_sub_i64(self.min, other.max), max: sat_sub_i64(self.max, other.min) }
    }

    /// Interval addition whose bounds are then clamped into `bound`.
    pub fn saturating_add(&self, other: &Interval, bound: &Interval) -> (r: Self)
        requires
            bound.min <= bound.max,
        ensures
            r.min == clamp_spec(sat_i64(self.min + other.min), bound.min as int, bound.max as int),
            r.max == clamp_spec(sat_i64(self.max + other.max), bound.min as int, bound.max as int),
    {
        let raw_min = sat_add_i64(self.min, other.min);
        let raw_max = sat_add_i64(self.max, other.max);
        Interval { min: clamp_i64(raw_min, bound.min, bound.max), max: clamp_i64(raw_max, bound.min, bound.max) }
    }
}

/// Saturation is monotone.
pub proof fn lemma_sat_monotone(x: int, y: int)
    requires
        x <= y,
    ensures
        sat_i64(x) <= sat_i64(y),
{
}

/// Soundness of `add`: the sum of members of two intervals belongs to their sum,
/// saturated into `i64` when it leaves that range.
pub proof fn law_add_sound(a: Interval, b: Interval, x: int, y: int)
    requires
        a.has(x),
        b.has(y),
    ensures
        ({
            let s = Interval { min: sat_i64(a.min + b.min) as i64, max: sat_i64(a.max + b.max) as i64 };
            s.has(sat_i64(x + y))
        }),
{
}

/// Soundness of `sub`: the difference of members of two intervals belongs to their difference,
/// saturated into `i64` when it leaves that range.
pub proof fn law_sub_sound(a: Interval, b: Interval, x: int, y: int)
    requires
        a.has(x),
        b.has(y),
    ensures
        ({
            let s = Interval { min: sat_i64(a.min - b.max) as i64, max: sat_i64(a.max - b.min) as i64 };
            s.has(sat_i64(x - y))
        }),
{
}

/// The bounds of `saturating_add` always lie within `bound`.
pub proof fn law_saturating_add_within_bound(a: Interval, b: Interval, bound: Interval)
    requires
        bound.min <= bound.max,
    ensures
        ({
            let s = Interval {
                min: clamp_spec(sat_i64(a.min + b.min), bound.min as int, bound.max as int) as i64,
                max: clamp_spec(sat_i64(a.max + b.max), bound.min as int, bound.max as int) as i64,
            };
            s.within(bound)
        }),
{
}

/// A point interval contains exactly its value.
pub proof fn law_point_contains(v: i64, w: int)
    ensures
        (Interval { min: v, max: v }).has(w) <==> w == v,
{
}

/// Inclusion is reflexive and transitive, and membership is inherited by super-intervals.
pub proof fn law_subset_order(a: Interval, b: Interval, c: Interval, v: int)
    ensures
        a.within(a),
        a.within(b) && b.within(c) ==> a.within(c),
        a.within(b) && a.has(v) ==> b.has(v),
{
}

} // verus!
