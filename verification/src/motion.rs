use vstd::prelude::*;

use crate::tiles::TilePos;

verus! {

/// One full path segment, in the fixed-point scale used for progress values:
/// a progress of `PROGRESS_ONE` means one whole segment has been walked.
pub const PROGRESS_ONE: u32 = 1000000;

/// A resolved route and how far along it an actor has come. `index` names the
/// start of the segment being walked; the route is finished when no segment
/// starts there any more.
pub struct PathState {
    pub path: Vec<TilePos>,
    pub index: usize,
}

/// What one movement tick reports back: where the actor now discretely
/// stands, the endpoints of the segment it is interpolating over, and
/// whether the route is done.
pub struct MoveOutcome {
    pub finished: bool,
    pub at: TilePos,
    pub from: TilePos,
    pub to: TilePos,
}

/// Where segment advancing lands, starting from segment `index` with
/// accumulated progress `p` on a path of `len` waypoints: while at least one
/// whole segment of progress is pending, consume a segment; at the last
/// waypoint, clamp the progress to exactly one segment and stop. Away from
/// the last waypoint the pending progress therefore stays strictly below one
/// segment.
pub open spec fn adv(len: int, index: int, p: int) -> (int, int)
    decreases p,
{
    if p >= PROGRESS_ONE {
        let next = index + 1;
        if next < len - 1 {
            adv(len, next, p - PROGRESS_ONE)
        } else {
            (next, PROGRESS_ONE as int)
        }
    } else {
        (index, p)
    }
}

/// Progress along a path is monotonic: a tick never rewinds the segment
/// index and never runs it past the last waypoint; the pending progress stays
/// strictly below one whole segment except at the final clamp, where it is
/// exactly one; a tick of no elapsed time changes nothing.
pub proof fn lemma_progress_monotonic(len: int, index: int, p: int)
    requires
        2 <= len,
        0 <= index < len - 1,
        0 <= p,
    ensures
        adv(len, index, p).0 >= index,
        adv(len, index, p).0 <= len - 1,
        0 <= adv(len, index, p).1 <= PROGRESS_ONE,
        adv(len, index, p).0 < len - 1 ==> adv(len, index, p).1 < PROGRESS_ONE,
        adv(len, index, p).0 == len - 1 ==> adv(len, index, p).1 == PROGRESS_ONE,
        p < PROGRESS_ONE ==> adv(len, index, p) == (index, p),
    decreases p,
{
    if p >= PROGRESS_ONE {
        let next = index + 1;
        if next < len - 1 {
            lemma_progress_monotonic(len, next, p - PROGRESS_ONE);
        }
    }
}

/// Where a whole sequence of ticks takes a follower: each tick adds its step
/// and consumes segments; once the last waypoint is reached the route is done
/// and later ticks change nothing.
pub open spec fn run_ticks(len: int, index: int, p: int, steps: Seq<int>) -> (int, int)
    decreases steps.len(),
{
    if steps.len() == 0 {
        (index, p)
    } else if index >= len - 1 {
        (index, p)
    } else {
        let one = adv(len, index, p + steps[0]);
        run_ticks(len, one.0, one.1, steps.drop_first())
    }
}

/// Over any sequence of non-negative ticks, the segment index never
/// decreases, never passes the last waypoint, and the pending progress never
/// reaches a whole segment before the matching segment advance: it stays
/// strictly below one segment until the route ends, and is exactly one at the
/// end.
pub proof fn lemma_run_monotonic(len: int, index: int, p: int, steps: Seq<int>)
    requires
        2 <= len,
        0 <= index <= len - 1,
        0 <= p <= PROGRESS_ONE,
        index < len - 1 ==> p < PROGRESS_ONE,
        forall|i: int| 0 <= i < steps.len() ==> #[trigger] steps[i] >= 0,
    ensures
        run_ticks(len, index, p, steps).0 >= index,
        run_ticks(len, index, p, steps).0 <= len - 1,
        0 <= run_ticks(len, index, p, steps).1 <= PROGRESS_ONE,
        run_ticks(len, index, p, steps).0 < len - 1 ==> run_ticks(len, index, p, steps).1
            < PROGRESS_ONE,
    decreases steps.len(),
{
    if steps.len() > 0 && index < len - 1 {
        assert(steps[0] >= 0);
        lemma_progress_monotonic(len, index, p + steps[0]);
        let one = adv(len, index, p + steps[0]);
        assert forall|i: int| 0 <= i < steps.drop_first().len() implies #[trigger] steps.drop_first()[i]
            >= 0 by {
            assert(steps.drop_first()[i] == steps[i + 1]);
        }
        lemma_run_monotonic(len, one.0, one.1, steps.drop_first());
    }
}

impl PathState {
    pub open spec fn wf(self) -> bool {
        1 <= self.path@.len() && self.index < self.path@.len()
    }

    /// The segment `[index, index + 1]` no longer exists: the actor stands at
    /// the final waypoint.
    pub open spec fn spec_finished(self) -> bool {
        self.index + 1 >= self.path@.len()
    }

    /// Start following `path` from its first waypoint.
    pub fn from_path(path: Vec<TilePos>) -> (r: PathState)
        requires
            path@.len() >= 1,
        ensures
            r.wf(),
            r.index == 0,
            r.path@ == path@,
    {
        PathState { path, index: 0 }
    }

    pub fn finished(&self) -> (r: bool)
        requires
            self.wf(),
        ensures
            r == self.spec_finished(),
    {
        self.index >= self.path.len() - 1
    }

    /// Advance by `step` fixed-point progress units (elapsed time times
    /// speed), consuming a waypoint whenever a whole segment of progress is
    /// pending and clamping at the final waypoint. Away from the end the
    /// pending progress stays strictly below one segment. The discrete
    /// position follows the current segment's start until the route finishes,
    /// then snaps to the destination.
    pub fn advance(&mut self, progress: &mut u32, step: u32) -> (r: MoveOutcome)
        requires
            old(self).wf(),
            !old(self).spec_finished(),
            *old(progress) < PROGRESS_ONE,
        ensures
            final(self).wf(),
            final(self).path@ == old(self).path@,
            final(self).index as int == adv(
                old(self).path@.len() as int,
                old(self).index as int,
                *old(progress) + step,
            ).0,
            *final(progress) == adv(
                old(self).path@.len() as int,
                old(self).index as int,
                *old(progress) + step,
            ).1,
            final(self).index >= old(self).index,
            *final(progress) <= PROGRESS_ONE,
            !final(self).spec_finished() ==> *final(progress) < PROGRESS_ONE,
            final(self).spec_finished() ==> *final(progress) == PROGRESS_ONE,
            step == 0 ==> final(self).index == old(self).index && *final(progress) == *old(
                progress,
            ),
            r.finished == final(self).spec_finished(),
            r.from == final(self).path@[final(self).index as int],
            r.finished ==> r.to == final(self).path@.last() && r.at == final(self).path@.last(),
            !r.finished ==> r.to == final(self).path@[final(self).index as int + 1] && r.at
                == final(self).path@[final(self).index as int],
    {
        let ghost len0 = self.path@.len() as int;
        let ghost idx0 = self.index as int;
        let ghost p0 = *old(progress) + step;
        let len = self.path.len();
        let mut p: u64 = (*progress) as u64 + step as u64;
        proof {
            lemma_progress_monotonic(len0, idx0, p0);
        }
        while p >= PROGRESS_ONE as u64
            invariant_except_break
                2 <= len,
                len == self.path@.len(),
                self.path@ == old(self).path@,
                idx0 <= self.index as int,
                self.index < len - 1,
                adv(len0, idx0, p0) == adv(len0, self.index as int, p as int),
                len0 == len as int,
            ensures
                self.path@ == old(self).path@,
                len == self.path@.len(),
                idx0 <= self.index as int,
                self.index <= len - 1,
                p <= PROGRESS_ONE as u64,
                adv(len0, idx0, p0) == (self.index as int, p as int),
            decreases p,
        {
            self.index = self.index + 1;
            if self.index < len - 1 {
                p = p - PROGRESS_ONE as u64;
            } else {
                p = PROGRESS_ONE as u64;
                break ;
            }
        }
        *progress = p as u32;
        proof {
            lemma_progress_monotonic(len0, idx0, p0);
        }
        let finished = self.index >= len - 1;
        let from = self.path[self.index];
        let to = if finished {
            self.path[len - 1]
        } else {
            self.path[self.index + 1]
        };
        let at = if finished {
            self.path[len - 1]
        } else {
            self.path[self.index]
        };
        MoveOutcome { finished, at, from, to }
    }
}

} // verus!
