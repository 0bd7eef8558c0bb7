use vstd::prelude::*;

verus! {

/// Outcome of a resolution cycle for one robot.
#[derive(Clone, Copy, Debug, PartialEq, Eq, Structural)]
pub enum MotionState {
    Pause,
    Resume,
}

/// The wire name of a motion state.
pub open spec fn state_name(s: MotionState) -> Seq<char> {
    match s {
        MotionState::Pause => "Pause"@,
        MotionState::Resume => "Resume"@,
    }
}

impl MotionState {
    /// The name under which the state travels in a record.
    pub fn to_string(&self) -> (r: String)
        ensures
            r@ == state_name(*self),
    {
        match self {
            MotionState::Pause => "Pause".to_owned(),
            MotionState::Resume => "Resume".to_owned(),
        }
    }
}

/// What the resolution engine knows of one robot.
///
/// A point of the plane is held as an identifier: two identifiers are equal
/// exactly when the two points have equal coordinates. The heading, the load
/// flag, the time stamp and the battery level take no part in resolution and
/// travel beside this record.
#[derive(Clone, Debug)]
pub struct Robot {
    /// Unique identifier of the reporting device.
    pub device_id: String,
    /// Outcome of the last resolution cycle.
    pub state: MotionState,
    /// The point the robot stands on.
    pub position: u64,
    /// The points of the robot's planned path, in order.
    pub path: Vec<u64>,
}

/// Index of the first point of `path` at or after `i` that equals `p`, or -1.
pub open spec fn index_from(path: Seq<u64>, p: u64, i: int) -> int
    decreases path.len() - i,
{
    if i < 0 || i >= path.len() {
        -1
    } else if path[i] == p {
        i
    } else {
        index_from(path, p, i + 1)
    }
}

/// Index of the first waypoint of `path` that equals `p`, or -1 when the
/// point is off the path.
pub open spec fn waypoint_index(path: Seq<u64>, p: u64) -> int {
    index_from(path, p, 0)
}

/// Where a robot that may move goes from `p`: the waypoint after the first
/// one equal to `p`; it stays put when off the path or at the path's end.
pub open spec fn next_position(path: Seq<u64>, p: u64) -> u64 {
    let k = waypoint_index(path, p);
    if 0 <= k && k + 1 < path.len() {
        path[k + 1]
    } else {
        p
    }
}

/// The robot after the advance rule: it moves one waypoint only when its
/// state is `Resume`.
pub open spec fn advanced(r: Robot) -> Robot {
    if r.state == MotionState::Resume {
        Robot { position: next_position(r.path@, r.position), ..r }
    } else {
        r
    }
}

/// The robot with its state overwritten and its position kept.
pub open spec fn with_state(r: Robot, s: MotionState) -> Robot {
    Robot { state: s, ..r }
}

/// Finds the first waypoint of `path` equal to `p`.
pub fn find_waypoint(path: &Vec<u64>, p: u64) -> (r: Option<usize>)
    ensures
        match r {
            Some(k) => k < path@.len() && k as int == waypoint_index(path@, p),
            None => waypoint_index(path@, p) == -1,
        },
{
    let mut i: usize = 0;
    while i < path.len()
        invariant
            i <= path@.len(),
            index_from(path@, p, 0) == index_from(path@, p, i as int),
        decreases path@.len() - i,
    {
        if path[i] == p {
            return Some(i);
        }
        i = i + 1;
    }
    None
}

} // verus!
