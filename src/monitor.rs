use vstd::prelude::*;

use crate::model::{advanced, find_waypoint, with_state, MotionState, Robot};

verus! {

/// Whether robots `i` and `j` of a batch are in conflict: their boxes overlap
/// at the reported poses and they are two different devices.
pub open spec fn in_conflict(robots: Seq<Robot>, boxes: Seq<Vec<bool>>, i: int, j: int) -> bool {
    robots[i].device_id@ != robots[j].device_id@ && boxes[i]@[j]
}

/// The conflicts `(i, j)` of row `i` with `i < j < end`, by ascending `j`.
pub open spec fn row_conflicts(robots: Seq<Robot>, boxes: Seq<Vec<bool>>, i: int, end: int) -> Seq<(usize, usize)>
    decreases end - i,
{
    if end <= i + 1 {
        seq![]
    } else {
        row_conflicts(robots, boxes, i, end - 1) + if in_conflict(robots, boxes, i, end - 1) {
            seq![(i as usize, (end - 1) as usize)]
        } else {
            seq![]
        }
    }
}

/// The conflicts of the rows before `i`, in ascending `(i, j)` order.
pub open spec fn conflicts_before(robots: Seq<Robot>, boxes: Seq<Vec<bool>>, i: int) -> Seq<(usize, usize)>
    decreases i,
{
    if i <= 0 {
        seq![]
    } else {
        conflicts_before(robots, boxes, i - 1) + row_conflicts(robots, boxes, i - 1, robots.len() as int)
    }
}

/// All conflicts of a batch, in ascending `(i, j)` order.
pub open spec fn conflict_list(robots: Seq<Robot>, boxes: Seq<Vec<bool>>) -> Seq<(usize, usize)> {
    conflicts_before(robots, boxes, robots.len() as int)
}

/// `boxes` holds one verdict for each ordered pair of robots of a batch of `n`.
pub open spec fn boxes_fit(boxes: Seq<Vec<bool>>, n: int) -> bool {
    boxes.len() == n && forall|i: int| 0 <= i < n ==> #[trigger] boxes[i]@.len() == n
}

/// The conservative policy: both parties of a fresh conflict stop.
pub open spec fn default_policy() -> (MotionState, MotionState) {
    (MotionState::Pause, MotionState::Pause)
}

/// Outcome of one resolution cycle: with no conflict every robot takes one
/// step by the advance rule; with any conflict the whole fleet holds.
pub open spec fn resolved(robots: Seq<Robot>, boxes: Seq<Vec<bool>>) -> Seq<Robot> {
    if conflict_list(robots, boxes).len() == 0 {
        robots.map_values(|r: Robot| advanced(r))
    } else {
        robots.map_values(|r: Robot| with_state(r, MotionState::Pause))
    }
}

/// The batch after the deadlock-breaking rule settles the pair `(i, j)`:
/// the partner of a paused robot gets right of way, is set to `Resume` and
/// takes one step by the advance rule; two robots that both want to move
/// fall back to the default policy.
pub open spec fn settle_pair(rs: Seq<Robot>, i: int, j: int) -> Seq<Robot> {
    if rs[i].state == MotionState::Pause {
        let moved = rs.update(j, advanced(with_state(rs[j], MotionState::Resume)));
        let a = moved.update(i, with_state(moved[i], MotionState::Pause));
        a.update(j, with_state(a[j], MotionState::Resume))
    } else if rs[j].state == MotionState::Pause {
        let moved = rs.update(i, advanced(with_state(rs[i], MotionState::Resume)));
        let a = moved.update(i, with_state(moved[i], MotionState::Resume));
        a.update(j, with_state(a[j], MotionState::Pause))
    } else {
        let a = rs.update(i, with_state(rs[i], default_policy().0));
        a.update(j, with_state(a[j], default_policy().1))
    }
}

/// The batch after the deadlock-breaking pass over the first `k` conflicts;
/// a pair met a second time is skipped.
pub open spec fn deadlock_pass(rs: Seq<Robot>, conflicts: Seq<(usize, usize)>, k: int) -> Seq<Robot>
    decreases k,
{
    if k <= 0 {
        rs
    } else {
        let prev = deadlock_pass(rs, conflicts, k - 1);
        let c = conflicts[k - 1];
        if conflicts.subrange(0, k - 1).contains(c) {
            prev
        } else {
            settle_pair(prev, c.0 as int, c.1 as int)
        }
    }
}

/// Every pair names two robots of a batch of `n`.
pub open spec fn pairs_fit(conflicts: Seq<(usize, usize)>, n: int) -> bool {
    forall|k: int| 0 <= k < conflicts.len() ==> (#[trigger] conflicts[k]).0 < n && conflicts[k].1 < n
}

fn contains_pair(pairs: &Vec<(usize, usize)>, p: (usize, usize)) -> (r: bool)
    ensures
        r == pairs@.contains(p),
{
    let mut i: usize = 0;
    while i < pairs.len()
        invariant
            i <= pairs@.len(),
            forall|m: int| 0 <= m < i ==> pairs@[m] != p,
        decreases pairs@.len() - i,
    {
        let q = pairs[i];
        if q.0 == p.0 && q.1 == p.1 {
            return true;
        }
        i = i + 1;
    }
    false
}

/// The collision monitor of a fleet of a fixed size.
pub struct CollisionMonitor {
    /// Number of robots of a complete batch.
    pub num_agents: usize,
}

impl CollisionMonitor {
    pub fn new(num_agents: usize) -> (r: Self)
        ensures
            r.num_agents == num_agents,
    {
        CollisionMonitor { num_agents }
    }

    /// The default resolution of a conflict between two robots that both
    /// want to move.
    pub fn resolve_collision(&self) -> (r: (MotionState, MotionState))
        ensures
            r == default_policy(),
    {
        (MotionState::Pause, MotionState::Pause)
    }

    /// Applies the advance rule: a robot in state `Resume` that stands on a
    /// waypoint of its path moves to the next one.
    pub fn update_motion_coordinates(&self, robot: &mut Robot)
        ensures
            *final(robot) == advanced(*old(robot)),
    {
        if robot.state == MotionState::Resume {
            let n = robot.path.len();
            match find_waypoint(&robot.path, robot.position) {
                Some(k) => {
                    if k + 1 < n {
                        robot.position = robot.path[k + 1];
                    }
                },
                None => {},
            }
        }
    }

    /// Whether two robots are in conflict, given whether their boxes overlap.
    pub fn will_collision_occur(&self, robot_a: &Robot, robot_b: &Robot, boxes_overlap: bool) -> (r: bool)
        ensures
            r == (robot_a.device_id@ != robot_b.device_id@ && boxes_overlap),
    {
        if robot_a.device_id == robot_b.device_id {
            return false;
        }
        boxes_overlap
    }

    /// Lists every conflict of the batch, in ascending `(i, j)` order.
    /// `boxes[i][j]` tells whether the rotated boxes of robots `i` and `j`
    /// overlap at their reported poses.
    pub fn detect_collisions(&self, robots: &Vec<Robot>, boxes: &Vec<Vec<bool>>) -> (r: Vec<(usize, usize)>)
        requires
            boxes_fit(boxes@, robots@.len() as int),
        ensures
            r@ == conflict_list(robots@, boxes@),
    {
        let n = robots.len();
        let mut conflicts: Vec<(usize, usize)> = Vec::new();
        let mut idx: usize = 0;
        while idx < n
            invariant
                n == robots@.len(),
                idx <= n,
                boxes_fit(boxes@, n as int),
                conflicts@ == conflicts_before(robots@, boxes@, idx as int),
            decreases n - idx,
        {
            let mut jdx: usize = idx + 1;
            assert(conflicts@ + row_conflicts(robots@, boxes@, idx as int, jdx as int) =~= conflicts@);
            while jdx < n
                invariant
                    n == robots@.len(),
                    idx < n,
                    idx < jdx <= n,
                    boxes_fit(boxes@, n as int),
                    conflicts@ == conflicts_before(robots@, boxes@, idx as int) + row_conflicts(
                        robots@,
                        boxes@,
                        idx as int,
                        jdx as int,
                    ),
                decreases n - jdx,
            {
                let ghost before = conflicts@;
                assert(boxes@[idx as int]@.len() == n);
                if self.will_collision_occur(&robots[idx], &robots[jdx], boxes[idx][jdx]) {
                    conflicts.push((idx, jdx));
                }
                assert(row_conflicts(robots@, boxes@, idx as int, jdx + 1) == row_conflicts(robots@, boxes@, idx as int, jdx as int) + if in_conflict(robots@, boxes@, idx as int, jdx as int) {
                    seq![(idx, jdx)]
                } else {
                    seq![]
                });
                assert(conflicts@ =~= conflicts_before(robots@, boxes@, idx as int) + row_conflicts(
                    robots@,
                    boxes@,
                    idx as int,
                    jdx + 1,
                ));
                jdx = jdx + 1;
            }
            assert(conflicts_before(robots@, boxes@, idx + 1) == conflicts_before(robots@, boxes@, idx as int) + row_conflicts(robots@, boxes@, idx as int, n as int));
            idx = idx + 1;
        }
        conflicts
    }

    /// Resolves one batch in place.
    ///
    /// With no conflict, every robot takes one step by the advance rule.
    /// Otherwise the deadlock flag is raised from the start: no pair can be
    /// settled before the fleet-wide hold, so every robot is set to `Pause`
    /// and none moves.
    pub fn update_robot_state(&self, robots: &mut Vec<Robot>, boxes: &Vec<Vec<bool>>)
        requires
            boxes_fit(boxes@, old(robots)@.len() as int),
        ensures
            final(robots)@ == resolved(old(robots)@, boxes@),
            final(robots)@.len() == old(robots)@.len(),
            conflict_list(old(robots)@, boxes@).len() > 0 ==> forall|i: int|
                0 <= i < final(robots)@.len() ==> (#[trigger] final(robots)@[i]).state
                    == MotionState::Pause && final(robots)@[i].position == old(robots)@[i].position,
    {
        let ghost start = robots@;
        let n = robots.len();
        let conflicts = self.detect_collisions(robots, boxes);
        let deadlock = conflicts.len() > 0;

        if conflicts.len() == 0 {
            let mut i: usize = 0;
            while i < n
                invariant
                    n == start.len(),
                    robots@.len() == n,
                    i <= n,
                    forall|k: int| 0 <= k < i ==> robots@[k] == advanced(start[k]),
                    forall|k: int| i <= k < n ==> robots@[k] == start[k],
                decreases n - i,
            {
                self.update_motion_coordinates(&mut robots[i]);
                i = i + 1;
            }
            assert(robots@ =~= start.map_values(|r: Robot| advanced(r)));
        }
        if deadlock {
            let mut i: usize = 0;
            while i < n
                invariant
                    n == start.len(),
                    robots@.len() == n,
                    i <= n,
                    forall|k: int| 0 <= k < i ==> robots@[k] == with_state(start[k], MotionState::Pause),
                    forall|k: int| i <= k < n ==> robots@[k] == start[k],
                decreases n - i,
            {
                robots[i].state = MotionState::Pause;
                i = i + 1;
            }
            assert(robots@ =~= start.map_values(|r: Robot| with_state(r, MotionState::Pause)));
        }
    }

    /// Runs one resolution cycle on a complete batch.
    pub fn trigger_collision_monitor(&self, robots: Vec<Robot>, boxes: &Vec<Vec<bool>>) -> (r: Result<Vec<Robot>, String>)
        requires
            boxes_fit(boxes@, robots@.len() as int),
        ensures
            r is Err <==> robots@.len() != self.num_agents,
            r matches Err(e) ==> e@ == "Not yet received all agent records"@,
            r matches Ok(v) ==> v@ == resolved(robots@, boxes@),
    {
        if robots.len() != self.num_agents {
            return Err("Not yet received all agent records".to_owned());
        }
        let mut robots = robots;
        self.update_robot_state(&mut robots, boxes);
        Ok(robots)
    }

    /// Deadlock-breaking pass: settles each distinct pair of `conflicts` once,
    /// in list order, against the batch as already changed by earlier pairs.
    pub fn resolve_deadlock(&self, robots: &mut Vec<Robot>, conflicts: &Vec<(usize, usize)>)
        requires
            pairs_fit(conflicts@, old(robots)@.len() as int),
        ensures
            final(robots)@ == deadlock_pass(old(robots)@, conflicts@, conflicts@.len() as int),
    {
        let ghost start = robots@;
        let mut handled: Vec<(usize, usize)> = Vec::new();
        let mut k: usize = 0;
        while k < conflicts.len()
            invariant
                k <= conflicts@.len(),
                robots@.len() == start.len(),
                pairs_fit(conflicts@, start.len() as int),
                robots@ == deadlock_pass(start, conflicts@, k as int),
                forall|p: (usize, usize)| handled@.contains(p) <==> conflicts@.subrange(0, k as int).contains(p),
            decreases conflicts@.len() - k,
        {
            let pair = conflicts[k];
            let first = pair.0;
            let second = pair.1;
            assert(conflicts@.subrange(0, k + 1) =~= conflicts@.subrange(0, k as int).push(pair));
            let ghost handled_before = handled@;
            let fresh = !contains_pair(&handled, pair);
            if fresh {
                let first_paused = robots[first].state == MotionState::Pause;
                let second_paused = robots[second].state == MotionState::Pause;
                let (new_state_i, new_state_j) = if first_paused {
                    robots[second].state = MotionState::Resume;
                    self.update_motion_coordinates(&mut robots[second]);
                    (MotionState::Pause, MotionState::Resume)
                } else if second_paused {
                    robots[first].state = MotionState::Resume;
                    self.update_motion_coordinates(&mut robots[first]);
                    (MotionState::Resume, MotionState::Pause)
                } else {
                    self.resolve_collision()
                };
                robots[first].state = new_state_i;
                robots[second].state = new_state_j;
                handled.push(pair);
                assert(robots@ =~= settle_pair(deadlock_pass(start, conflicts@, k as int), first as int, second as int));
            }
            assert forall|p: (usize, usize)| handled@.contains(p) <==> conflicts@.subrange(0, k + 1).contains(p) by {
                let pre = conflicts@.subrange(0, k as int);
                let pre1 = conflicts@.subrange(0, k + 1);
                if pre1.contains(p) {
                    let m = choose|m: int| 0 <= m < pre1.len() && #[trigger] pre1[m] == p;
                    if m < k {
                        assert(pre[m] == p);
                        assert(handled_before.contains(p));
                        let m3 = choose|m3: int| 0 <= m3 < handled_before.len() && #[trigger] handled_before[m3] == p;
                        assert(handled@[m3] == p);
                    } else if fresh {
                        assert(handled@[handled@.len() - 1] == pair);
                    } else {
                        assert(handled_before.contains(pair));
                    }
                }
                if handled@.contains(p) && p != pair {
                    let m = choose|m: int| 0 <= m < handled@.len() && #[trigger] handled@[m] == p;
                    assert(handled_before[m] == p);
                    assert(handled_before.contains(p));
                    assert(pre.contains(p));
                    let m2 = choose|m2: int| 0 <= m2 < pre.len() && #[trigger] pre[m2] == p;
                    assert(pre1[m2] == p);
                }
                if p == pair {
                    assert(pre1[k as int] == p);
                }
            }
            k = k + 1;
        }
    }
}

} // verus!
