use vstd::prelude::*;

verus! {

/// Integer division rounding toward zero, as machines divide; 0 when
/// dividing by 0, which no program is held to.
pub open spec fn trunc_div(a: int, b: int) -> int {
    if b == 0 {
        0
    } else {
        let q = (if a < 0 { -a } else { a }) / (if b < 0 { -b } else { b });
        if (a < 0) != (b < 0) {
            -q
        } else {
            q
        }
    }
}

/// The remainder that goes with `trunc_div`: it has the sign of `a`.
pub open spec fn trunc_rem(a: int, b: int) -> int {
    a - b * trunc_div(a, b)
}

/// 1 for a condition that holds, 0 for one that does not.
pub open spec fn truth(c: bool) -> int {
    if c {
        1
    } else {
        0
    }
}

} // verus!
