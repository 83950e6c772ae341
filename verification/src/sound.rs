//! The keys that set the engine sound's volume.
use vstd::prelude::*;

verus! {

/// The engine volume's change for the keys just pressed: Z turns it down a
/// step, C (when Z was not pressed) up a step.
pub fn engine_sound_vol(z_just_pressed: bool, c_just_pressed: bool) -> (r: i8)
    ensures
        r == (if z_just_pressed { -1i8 } else if c_just_pressed { 1i8 } else { 0i8 }),
{
    if z_just_pressed {
        -1
    } else if c_just_pressed {
        1
    } else {
        0
    }
}

} // verus!
