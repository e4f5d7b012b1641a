//! Range expansion: the inclusive list of frames between two endpoints,
//! descending when the endpoints are given in reverse order.

use vstd::prelude::*;

use crate::animations::{frame_values, Frame};
use crate::ids::IdSource;

verus! {

/// The inclusive sequence of integers from `start` to `end`: ascending when
/// `start <= end`, descending otherwise.
pub open spec fn range_seq(start: int, end: int) -> Seq<int> {
    if start <= end {
        Seq::new((end - start + 1) as nat, |k: int| start + k)
    } else {
        Seq::new((start - end + 1) as nat, |k: int| start - k)
    }
}

/// Builds the frame list for an inclusive range of frame values, one fresh
/// frame id per element: the ids are the next consecutive counter values,
/// so they are pairwise distinct until the counter saturates.
pub fn frames_from_range(start: i32, end: i32, ids: &mut IdSource) -> (frames: Vec<Frame>)
    ensures
        frame_values(frames@) == range_seq(start as int, end as int),
        old(ids).next <= final(ids).next,
        forall|j: int|
            0 <= j < frames@.len() ==> (#[trigger] frames@[j]).id.0 == vstd::math::min(
                old(ids).next + j,
                u32::MAX as int,
            ),
        final(ids).next == vstd::math::min(
            old(ids).next + frames@.len(),
            u32::MAX as int,
        ),
{
    let mut frames: Vec<Frame> = Vec::new();
    if start <= end {
        let last: i64 = end as i64;
        let mut cur: i64 = start as i64;
        while cur <= last
            invariant
                old(ids).next <= ids.next,
                start <= end,
                last == end as int,
                start as int <= cur <= last + 1,
                frames@.len() == cur - start as int,
                forall|j: int|
                    0 <= j < frames@.len() ==> (#[trigger] frames@[j]).value == start as int + j,
                forall|j: int|
                    0 <= j < frames@.len() ==> (#[trigger] frames@[j]).id.0 == vstd::math::min(
                        old(ids).next + j,
                        u32::MAX as int,
                    ),
                ids.next == vstd::math::min(
                    old(ids).next + frames@.len(),
                    u32::MAX as int,
                ),
            decreases last + 1 - cur,
        {
            let f = Frame::new(cur as i32, ids);
            frames.push(f);
            cur = cur + 1;
        }
        proof {
            assert forall|j: int| 0 <= j < frames@.len() implies #[trigger] frame_values(frames@)[j]
                == range_seq(start as int, end as int)[j] by {
                assert(frame_values(frames@)[j] == frames@[j].value as int);
            }
            assert(frame_values(frames@) =~= range_seq(start as int, end as int));
        }
    } else {
        let last: i64 = end as i64;
        let mut cur: i64 = start as i64;
        while cur >= last
            invariant
                old(ids).next <= ids.next,
                end < start,
                last == end as int,
                last - 1 <= cur <= start as int,
                frames@.len() == start as int - cur,
                forall|j: int|
                    0 <= j < frames@.len() ==> (#[trigger] frames@[j]).value == start as int - j,
                forall|j: int|
                    0 <= j < frames@.len() ==> (#[trigger] frames@[j]).id.0 == vstd::math::min(
                        old(ids).next + j,
                        u32::MAX as int,
                    ),
                ids.next == vstd::math::min(
                    old(ids).next + frames@.len(),
                    u32::MAX as int,
                ),
            decreases cur - last + 1,
        {
            let f = Frame::new(cur as i32, ids);
            frames.push(f);
            cur = cur - 1;
        }
        proof {
            assert forall|j: int| 0 <= j < frames@.len() implies #[trigger] frame_values(frames@)[j]
                == range_seq(start as int, end as int)[j] by {
                assert(frame_values(frames@)[j] == frames@[j].value as int);
            }
            assert(frame_values(frames@) =~= range_seq(start as int, end as int));
        }
    }
    frames
}

} // verus!
