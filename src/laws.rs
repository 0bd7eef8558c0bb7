use vstd::prelude::*;

use crate::model::{
    advanced, index_from, next_position, waypoint_index, with_state, MotionState, Robot,
};
use crate::monitor::{
    boxes_fit, conflict_list, conflicts_before, in_conflict, resolved, row_conflicts,
};

verus! {

proof fn lemma_row_members(robots: Seq<Robot>, boxes: Seq<Vec<bool>>, i: int, end: int)
    requires
        0 <= i,
        end <= robots.len() <= usize::MAX,
    ensures
        forall|k: int|
            0 <= k < row_conflicts(robots, boxes, i, end).len() ==> {
                let c = #[trigger] row_conflicts(robots, boxes, i, end)[k];
                c.0 == i && i < c.1 < end && in_conflict(robots, boxes, c.0 as int, c.1 as int)
            },
    decreases end - i,
{
    if end > i + 1 {
        lemma_row_members(robots, boxes, i, end - 1);
        let prev = row_conflicts(robots, boxes, i, end - 1);
        let row = row_conflicts(robots, boxes, i, end);
        assert forall|k: int| 0 <= k < row.len() implies {
            let c = #[trigger] row[k];
            c.0 == i && i < c.1 < end && in_conflict(robots, boxes, c.0 as int, c.1 as int)
        } by {
            if k < prev.len() {
                assert(row[k] == prev[k]);
            }
        }
    }
}

proof fn lemma_before_members(robots: Seq<Robot>, boxes: Seq<Vec<bool>>, i: int)
    requires
        0 <= i <= robots.len() <= usize::MAX,
    ensures
        forall|k: int|
            0 <= k < conflicts_before(robots, boxes, i).len() ==> {
                let c = #[trigger] conflicts_before(robots, boxes, i)[k];
                c.0 < i && c.0 < c.1 < robots.len() && in_conflict(robots, boxes, c.0 as int, c.1 as int)
            },
    decreases i,
{
    if i > 0 {
        lemma_before_members(robots, boxes, i - 1);
        lemma_row_members(robots, boxes, i - 1, robots.len() as int);
        let prev = conflicts_before(robots, boxes, i - 1);
        let row = row_conflicts(robots, boxes, i - 1, robots.len() as int);
        let all = conflicts_before(robots, boxes, i);
        assert(all == prev + row);
        assert forall|k: int| 0 <= k < all.len() implies {
            let c = #[trigger] all[k];
            c.0 < i && c.0 < c.1 < robots.len() && in_conflict(robots, boxes, c.0 as int, c.1 as int)
        } by {
            if k < prev.len() {
                assert(all[k] == prev[k]);
            } else {
                assert(all[k] == row[k - prev.len()]);
            }
        }
    }
}

/// No conflict pairs a robot with a report of the same device: every pair
/// `(i, j)` of the conflict list has `i < j`, names two robots of the batch
/// with different device identifiers, and their boxes overlap.
pub proof fn lemma_no_self_conflict(robots: Seq<Robot>, boxes: Seq<Vec<bool>>)
    requires
        robots.len() <= usize::MAX,
    ensures
        forall|k: int|
            0 <= k < conflict_list(robots, boxes).len() ==> {
                let c = #[trigger] conflict_list(robots, boxes)[k];
                &&& c.0 < c.1 < robots.len()
                &&& robots[c.0 as int].device_id@ != robots[c.1 as int].device_id@
                &&& boxes[c.0 as int]@[c.1 as int]
            },
{
    lemma_before_members(robots, boxes, robots.len() as int);
}

proof fn lemma_row_complete(robots: Seq<Robot>, boxes: Seq<Vec<bool>>, i: int, end: int, j: int)
    requires
        0 <= i < j < end <= robots.len() <= usize::MAX,
        in_conflict(robots, boxes, i, j),
    ensures
        row_conflicts(robots, boxes, i, end).contains((i as usize, j as usize)),
    decreases end - i,
{
    let row = row_conflicts(robots, boxes, i, end);
    let prev = row_conflicts(robots, boxes, i, end - 1);
    if j < end - 1 {
        lemma_row_complete(robots, boxes, i, end - 1, j);
        let m = choose|m: int| 0 <= m < prev.len() && #[trigger] prev[m] == (i as usize, j as usize);
        assert(row[m] == prev[m]);
    } else {
        assert(row[prev.len() as int] == (i as usize, j as usize));
    }
}

proof fn lemma_before_complete(robots: Seq<Robot>, boxes: Seq<Vec<bool>>, end: int, i: int, j: int)
    requires
        0 <= i < end <= robots.len() <= usize::MAX,
        i < j < robots.len(),
        in_conflict(robots, boxes, i, j),
    ensures
        conflicts_before(robots, boxes, end).contains((i as usize, j as usize)),
    decreases end,
{
    let all = conflicts_before(robots, boxes, end);
    let prev = conflicts_before(robots, boxes, end - 1);
    let row = row_conflicts(robots, boxes, end - 1, robots.len() as int);
    assert(all == prev + row);
    if i < end - 1 {
        lemma_before_complete(robots, boxes, end - 1, i, j);
        let m = choose|m: int| 0 <= m < prev.len() && #[trigger] prev[m] == (i as usize, j as usize);
        assert(all[m] == prev[m]);
    } else {
        lemma_row_complete(robots, boxes, i, robots.len() as int, j);
        let m = choose|m: int| 0 <= m < row.len() && #[trigger] row[m] == (i as usize, j as usize);
        assert(all[prev.len() + m] == row[m]);
    }
}

/// The conflict list holds exactly the pairs `(i, j)`, `i < j`, of robots of
/// different devices whose boxes overlap.
pub proof fn lemma_conflict_list_exact(robots: Seq<Robot>, boxes: Seq<Vec<bool>>)
    requires
        robots.len() <= usize::MAX,
    ensures
        forall|i: int, j: int|
            0 <= i < j < robots.len() ==> (conflict_list(robots, boxes).contains(
                (i as usize, j as usize),
            ) <==> in_conflict(robots, boxes, i, j)),
{
    lemma_before_members(robots, boxes, robots.len() as int);
    assert forall|i: int, j: int| 0 <= i < j < robots.len() implies (conflict_list(
        robots,
        boxes,
    ).contains((i as usize, j as usize)) <==> in_conflict(robots, boxes, i, j)) by {
        let list = conflict_list(robots, boxes);
        if in_conflict(robots, boxes, i, j) {
            lemma_before_complete(robots, boxes, robots.len() as int, i, j);
        }
        if list.contains((i as usize, j as usize)) {
            let m = choose|m: int| 0 <= m < list.len() && #[trigger] list[m] == (i as usize, j as usize);
            assert(in_conflict(robots, boxes, list[m].0 as int, list[m].1 as int));
        }
    }
}

/// The conflict test is symmetric in the two robots wherever the overlap
/// verdict of their boxes is.
pub proof fn lemma_conflict_symmetric(robots: Seq<Robot>, boxes: Seq<Vec<bool>>, i: int, j: int)
    requires
        boxes[i]@[j] == boxes[j]@[i],
    ensures
        in_conflict(robots, boxes, i, j) == in_conflict(robots, boxes, j, i),
{
}

/// Two conflict-free cycles in a row move each `Resume` robot exactly one
/// further waypoint: from waypoint `k` of its path to waypoint `k + 1`, and
/// on a path without repeated points its waypoint index grows by one.
/// States are kept, and a `Pause` robot does not move.
pub proof fn lemma_progress_without_conflict(
    robots: Seq<Robot>,
    boxes: Seq<Vec<bool>>,
    next_boxes: Seq<Vec<bool>>,
)
    requires
        boxes_fit(boxes, robots.len() as int),
        conflict_list(robots, boxes).len() == 0,
        boxes_fit(next_boxes, robots.len() as int),
        conflict_list(resolved(robots, boxes), next_boxes).len() == 0,
    ensures
        ({
            let once = resolved(robots, boxes);
            let twice = resolved(once, next_boxes);
            &&& twice.len() == robots.len()
            &&& forall|i: int| 0 <= i < robots.len() ==> {
                let r = #[trigger] robots[i];
                &&& twice[i].state == r.state
                &&& twice[i].device_id == r.device_id
                &&& twice[i].path == r.path
                &&& twice[i].position == advanced(once[i]).position
                &&& r.state == MotionState::Pause ==> twice[i].position == r.position
                &&& (r.state == MotionState::Resume && 0 <= waypoint_index(r.path@, once[i].position)
                    && waypoint_index(r.path@, once[i].position) + 1 < r.path@.len())
                    ==> twice[i].position == r.path@[waypoint_index(r.path@, once[i].position) + 1]
                &&& (r.state == MotionState::Resume && r.path@.no_duplicates() && 0
                    <= waypoint_index(r.path@, once[i].position) && waypoint_index(
                    r.path@,
                    once[i].position,
                ) + 1 < r.path@.len()) ==> waypoint_index(r.path@, twice[i].position)
                    == waypoint_index(r.path@, once[i].position) + 1
            }
        }),
{
    let once = resolved(robots, boxes);
    let twice = resolved(once, next_boxes);
    assert forall|i: int| 0 <= i < robots.len() implies {
        let r = #[trigger] robots[i];
        &&& twice[i].state == r.state
        &&& twice[i].device_id == r.device_id
        &&& twice[i].path == r.path
        &&& twice[i].position == advanced(once[i]).position
        &&& r.state == MotionState::Pause ==> twice[i].position == r.position
        &&& (r.state == MotionState::Resume && 0 <= waypoint_index(r.path@, once[i].position)
            && waypoint_index(r.path@, once[i].position) + 1 < r.path@.len()) ==> twice[i].position
            == r.path@[waypoint_index(r.path@, once[i].position) + 1]
        &&& (r.state == MotionState::Resume && r.path@.no_duplicates() && 0 <= waypoint_index(
            r.path@,
            once[i].position,
        ) && waypoint_index(r.path@, once[i].position) + 1 < r.path@.len()) ==> waypoint_index(
            r.path@,
            twice[i].position,
        ) == waypoint_index(r.path@, once[i].position) + 1
    } by {
        let r = robots[i];
        assert(once[i] == advanced(r));
        assert(twice[i] == advanced(once[i]));
        let k = waypoint_index(r.path@, once[i].position);
        if r.state == MotionState::Resume && r.path@.no_duplicates() && 0 <= k && k + 1 < r.path@.len() {
            lemma_index_of_distinct(r.path@, k + 1, 0);
        }
    }
}

/// On a path without repeated points, the first index of waypoint `m` is `m`.
proof fn lemma_index_of_distinct(path: Seq<u64>, m: int, i: int)
    requires
        path.no_duplicates(),
        0 <= i <= m < path.len(),
    ensures
        index_from(path, path[m], i) == m,
    decreases m - i,
{
    if i < m {
        assert(path[i] != path[m]);
        lemma_index_of_distinct(path, m, i + 1);
    }
}

proof fn lemma_index_not_before(path: Seq<u64>, p: u64, i: int)
    requires
        0 <= i,
        forall|m: int| i <= m < path.len() - 1 ==> path[m] != p,
        path.len() > 0,
        path[path.len() - 1] == p,
        i <= path.len() - 1,
    ensures
        index_from(path, p, i) == path.len() - 1,
    decreases path.len() - i,
{
    if i < path.len() - 1 {
        lemma_index_not_before(path, p, i + 1);
    }
}

/// A `Resume` robot that stands on the last waypoint of its path, a point
/// that the path does not visit earlier, stays where it is on the next cycle.
pub proof fn lemma_final_waypoint_holds(robots: Seq<Robot>, boxes: Seq<Vec<bool>>, i: int)
    requires
        0 <= i < robots.len(),
        robots[i].state == MotionState::Resume,
        robots[i].path@.len() > 0,
        robots[i].position == robots[i].path@[robots[i].path@.len() - 1],
        forall|m: int|
            0 <= m < robots[i].path@.len() - 1 ==> #[trigger] robots[i].path@[m]
                != robots[i].position,
    ensures
        advanced(robots[i]).position == robots[i].position,
        resolved(robots, boxes)[i].position == robots[i].position,
{
    let r = robots[i];
    lemma_index_not_before(r.path@, r.position, 0);
    assert(next_position(r.path@, r.position) == r.position);
    if conflict_list(robots, boxes).len() == 0 {
        assert(resolved(robots, boxes)[i] == advanced(r));
    } else {
        assert(resolved(robots, boxes)[i] == with_state(r, MotionState::Pause));
    }
}

/// Once any conflict raises the deadlock flag, every robot of the batch ends
/// the cycle in `Pause` where it stood, those in no conflict included.
pub proof fn lemma_deadlock_holds_fleet(robots: Seq<Robot>, boxes: Seq<Vec<bool>>)
    requires
        conflict_list(robots, boxes).len() > 0,
    ensures
        resolved(robots, boxes).len() == robots.len(),
        forall|i: int|
            0 <= i < robots.len() ==> (#[trigger] resolved(robots, boxes)[i]).state
                == MotionState::Pause && resolved(robots, boxes)[i].position == robots[i].position,
{
    assert forall|i: int| 0 <= i < robots.len() implies (#[trigger] resolved(robots, boxes)[i]).state
        == MotionState::Pause && resolved(robots, boxes)[i].position == robots[i].position by {
        assert(resolved(robots, boxes)[i] == with_state(robots[i], MotionState::Pause));
    }
}

} // verus!
