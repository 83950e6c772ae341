//! The schedule of the deep Q-learning trainer: when it counts a step, when it
//! trains on a batch, and when it copies the trained network into the target
//! network.
use vstd::prelude::*;
use crate::replay::BATCH_SIZE;

verus! {

/// Every this many steps the target network is synchronised.
pub const SYNC_INTERVAL_STEPS: i32 = 200;

/// What the trainer does in one of its time steps.
#[derive(PartialEq, Eq, Structural, Debug, Clone, Copy)]
pub struct DqnStep {
    /// The step counter after this time step.
    pub step: i32,
    /// Train the network on a batch sampled from the replay buffer.
    pub train: bool,
    /// Copy the trained network into the target network.
    pub sync: bool,
}

/// The trainer's decisions for a time step, given its step counter and how
/// many transitions the replay buffer holds: a step is counted once the buffer
/// holds more than a batch; training needs more than a batch and one; after
/// training, the target network is synchronised when the counter is a
/// multiple of `SYNC_INTERVAL_STEPS`.
pub fn dqn_step(step: i32, rb_len: usize) -> (r: DqnStep)
    requires
        rb_len > BATCH_SIZE ==> step < i32::MAX,
    ensures
        r.step == (if rb_len > BATCH_SIZE { step + 1 } else { step as int }),
        r.train == (rb_len > BATCH_SIZE + 1),
        r.sync == (r.train && (r.step as int) % (SYNC_INTERVAL_STEPS as int) == 0),
{
    let mut new_step = step;
    if rb_len > BATCH_SIZE {
        new_step = step + 1;
    }
    let train = rb_len > BATCH_SIZE + 1;
    let sync = train && new_step % SYNC_INTERVAL_STEPS == 0;
    DqnStep { step: new_step, train, sync }
}

/// How many times the target network has been synchronised, as the dashboard
/// shows it: the step counter divided by `SYNC_INTERVAL_STEPS`, rounded
/// towards zero.
pub fn sync_count(step: i32) -> (r: i32)
    ensures
        step >= 0 ==> r == step / SYNC_INTERVAL_STEPS,
        step < 0 ==> r == -((-step) / (SYNC_INTERVAL_STEPS as int)),
{
    let s = step as i64;
    let q: i64 = if s >= 0 {
        s / 200
    } else {
        -((-s) / 200)
    };
    q as i32
}

/// `name` holds `part` as a run of consecutive characters.
pub open spec fn holds_part(name: Seq<char>, part: Seq<char>) -> bool {
    exists|i: int| 0 <= i <= name.len() - part.len() && #[trigger] name.subrange(i, i + part.len()) == part
}

/// `str::contains` with a string pattern: whether `part` matches a sub-slice
/// of `name`. Its documentation promises exactly that; since both are valid
/// UTF-8, such a sub-slice starts and ends on character boundaries, so it is a
/// run of consecutive characters of `name`.
#[verifier::external_body]
fn str_contains(name: &str, part: &str) -> (r: bool)
    ensures
        r == holds_part(name@, part@),
{
    name.contains(part)
}

/// Whether the car has crashed, given the names of the bodies it touches:
/// it has when one of them is not part of the road, whose bodies' names hold
/// `road`.
pub fn is_crashed(colliding: &Vec<String>, road: &str) -> (r: bool)
    ensures
        r == exists|j: int| 0 <= j < colliding@.len() && !holds_part(#[trigger] colliding@[j]@, road@),
{
    let mut crashed = false;
    let mut j: usize = 0;
    while j < colliding.len()
        invariant
            j <= colliding@.len(),
            crashed == exists|l: int| 0 <= l < j && !holds_part(#[trigger] colliding@[l]@, road@),
        decreases colliding@.len() - j,
    {
        if !str_contains(colliding[j].as_str(), road) {
            crashed = true;
        }
        j = j + 1;
    }
    crashed
}

} // verus!
