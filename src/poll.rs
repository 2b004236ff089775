//! The computing part of waiting for readiness on several descriptors at once.
//! The wait itself is a system call made by the caller.

use vstd::prelude::*;

verus! {

/// The largest descriptor in `fds`, or `0` when there is none.
pub open spec fn max_fd(fds: Seq<i32>) -> int
    decreases fds.len(),
{
    if fds.len() == 0 {
        0
    } else {
        let m = max_fd(fds.drop_last());
        if fds.last() > m {
            fds.last() as int
        } else {
            m
        }
    }
}

/// The descriptor-count argument of a multiplexed wait over `fds`: one more
/// than the largest descriptor.
pub fn select_width(fds: &Vec<i32>) -> (r: i32)
    requires
        forall|i: int| 0 <= i < fds@.len() ==> 0 <= #[trigger] fds@[i] < i32::MAX,
    ensures
        r == max_fd(fds@) + 1,
{
    let mut m: i32 = 0;
    let mut i: usize = 0;
    while i < fds.len()
        invariant
            i <= fds@.len(),
            forall|k: int| 0 <= k < fds@.len() ==> 0 <= #[trigger] fds@[k] < i32::MAX,
            m == max_fd(fds@.subrange(0, i as int)),
            0 <= m < i32::MAX,
        decreases fds@.len() - i,
    {
        proof {
            assert(fds@.subrange(0, i + 1).drop_last() =~= fds@.subrange(0, i as int));
        }
        if fds[i] > m {
            m = fds[i];
        }
        i = i + 1;
    }
    assert(fds@.subrange(0, i as int) =~= fds@);
    m + 1
}

} // verus!
