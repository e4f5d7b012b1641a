//! Range detection: is a frame list a contiguous ±1-step run?

use vstd::prelude::*;

verus! {

/// Every two neighbouring values differ by exactly one (in either
/// direction). Empty and single-element sequences count as runs.
pub open spec fn is_pm1_run(s: Seq<int>) -> bool {
    forall|i: int|
        0 <= i < s.len() - 1 ==> (#[trigger] s[i]) - s[i + 1] == 1 || s[i + 1] - s[i] == 1
}

/// Each value is exactly one more than its predecessor.
pub open spec fn is_asc_run(s: Seq<int>) -> bool {
    forall|i: int| 0 <= i < s.len() - 1 ==> #[trigger] s[i + 1] == s[i] + 1
}

/// Each value is exactly one less than its predecessor.
pub open spec fn is_desc_run(s: Seq<int>) -> bool {
    forall|i: int| 0 <= i < s.len() - 1 ==> #[trigger] s[i + 1] == s[i] - 1
}

/// The integer views of a slice of frame values.
pub open spec fn int_values(s: Seq<i32>) -> Seq<int> {
    s.map_values(|v: i32| v as int)
}

/// Decides whether the frame values form a ±1-step run.
pub fn is_range(frames: &[i32]) -> (r: bool)
    ensures
        r == is_pm1_run(int_values(frames@)),
{
    let n = frames.len();
    if n == 0 {
        return true;
    }
    let mut i: usize = 0;
    while i < n - 1
        invariant
            n == frames@.len(),
            n >= 1,
            i <= n - 1,
            forall|j: int|
                0 <= j < i ==> (#[trigger] int_values(frames@)[j]) - int_values(frames@)[j + 1]
                    == 1 || int_values(frames@)[j + 1] - int_values(frames@)[j] == 1,
        decreases n - i,
    {
        let a = frames[i] as i64;
        let b = frames[i + 1] as i64;
        if !(a - b == 1 || b - a == 1) {
            proof {
                let s = int_values(frames@);
                assert(s[i as int] == frames@[i as int] as int);
                assert(s[i + 1] == frames@[i + 1] as int);
                assert(!(s[i as int] - s[i + 1] == 1 || s[i + 1] - s[i as int] == 1));
            }
            return false;
        }
        proof {
            let s = int_values(frames@);
            assert(s[i as int] == frames@[i as int] as int);
            assert(s[i + 1] == frames@[i + 1] as int);
        }
        i = i + 1;
    }
    true
}

/// Decides whether the frame values form a monotonic run: ascending or
/// descending by exactly one at each step. Only such runs can be encoded
/// as a frame period and decoded back to the same values.
pub fn is_monotonic_run(frames: &[i32]) -> (r: bool)
    ensures
        r == (is_asc_run(int_values(frames@)) || is_desc_run(int_values(frames@))),
{
    let n = frames.len();
    if n <= 1 {
        proof {
            assert(is_asc_run(int_values(frames@)));
        }
        return true;
    }
    let mut asc = true;
    let mut i: usize = 0;
    while i < n - 1
        invariant
            n == frames@.len(),
            n >= 2,
            i <= n - 1,
            asc == (forall|j: int|
                0 <= j < i ==> #[trigger] int_values(frames@)[j + 1] == int_values(frames@)[j]
                    + 1),
        decreases n - i,
    {
        let a = frames[i] as i64;
        let b = frames[i + 1] as i64;
        proof {
            let s = int_values(frames@);
            assert(s[i as int] == frames@[i as int] as int);
            assert(s[i + 1] == frames@[i + 1] as int);
        }
        if !(b == a + 1) {
            asc = false;
        }
        i = i + 1;
    }
    if asc {
        return true;
    }
    let mut desc = true;
    let mut i: usize = 0;
    while i < n - 1
        invariant
            n == frames@.len(),
            n >= 2,
            i <= n - 1,
            desc == (forall|j: int|
                0 <= j < i ==> #[trigger] int_values(frames@)[j + 1] == int_values(frames@)[j]
                    - 1),
        decreases n - i,
    {
        let a = frames[i] as i64;
        let b = frames[i + 1] as i64;
        proof {
            let s = int_values(frames@);
            assert(s[i as int] == frames@[i as int] as int);
            assert(s[i + 1] == frames@[i + 1] as int);
        }
        if !(b == a - 1) {
            desc = false;
        }
        i = i + 1;
    }
    desc
}

} // verus!
