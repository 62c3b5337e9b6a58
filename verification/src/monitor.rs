//! Which physical monitor the dashboard covers.

use vstd::prelude::*;

verus! {

/// A connected monitor: the physical position of its top-left corner and its
/// physical size.
#[derive(Clone, Copy, PartialEq, Eq, Structural, Debug)]
pub struct MonitorInfo {
    pub x: i32,
    pub y: i32,
    pub width: u32,
    pub height: u32,
}

/// `s[i]` is the rightmost monitor of `s`, and the last one listed among
/// those equally far right.
pub open spec fn is_last_rightmost(s: Seq<MonitorInfo>, i: int) -> bool {
    &&& 0 <= i < s.len()
    &&& forall|j: int| 0 <= j < s.len() ==> #[trigger] s[j].x <= s[i].x
    &&& forall|j: int| i < j < s.len() ==> #[trigger] s[j].x < s[i].x
}

/// Picks the monitor the dashboard covers: the rightmost of all connected
/// monitors (the one whose left edge is furthest right), the last one listed
/// where several are equally far right; none where no monitor is connected.
pub fn select_target_monitor(monitors: &Vec<MonitorInfo>) -> (r: Option<MonitorInfo>)
    ensures
        r is None <==> monitors@.len() == 0,
        r matches Some(m) ==> exists|i: int| is_last_rightmost(monitors@, i) && monitors@[i] == m,
{
    let n = monitors.len();
    if n == 0 {
        return None;
    }
    let mut best: usize = 0;
    for i in 1..n
        invariant
            n == monitors@.len(),
            1 <= i <= n,
            best < i,
            forall|j: int| 0 <= j < i ==> #[trigger] monitors@[j].x <= monitors@[best as int].x,
            forall|j: int| best < j < i ==> #[trigger] monitors@[j].x < monitors@[best as int].x,
    {
        if monitors[i].x >= monitors[best].x {
            best = i;
        }
    }
    let m = monitors[best];
    proof {
        assert(is_last_rightmost(monitors@, best as int));
    }
    Some(m)
}

/// The monitor chosen is determined by the monitors alone: no two positions
/// of a list are both its last rightmost one.
pub proof fn lemma_rightmost_unique(s: Seq<MonitorInfo>, i: int, j: int)
    requires
        is_last_rightmost(s, i),
        is_last_rightmost(s, j),
    ensures
        i == j,
{
    if i < j {
        assert(s[j].x < s[i].x);
        assert(s[j].x <= s[i].x && s[i].x <= s[j].x);
    } else if j < i {
        assert(s[i].x < s[j].x);
        assert(s[i].x <= s[j].x);
    }
}

/// The monitor chosen lies furthest right of all, and every monitor listed
/// after it lies strictly further left; some monitor is chosen whenever one
/// is connected.
pub proof fn lemma_chosen_is_rightmost(s: Seq<MonitorInfo>, i: int, j: int)
    ensures
        is_last_rightmost(s, i) && 0 <= j < s.len() ==> s[j].x <= s[i].x,
        is_last_rightmost(s, i) && i < j < s.len() ==> s[j].x < s[i].x,
        is_last_rightmost(s, i) ==> 0 <= i < s.len(),
{
}

} // verus!
