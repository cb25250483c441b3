//! Start/stop chimes.

use vstd::prelude::*;

verus! {

/// Which chime to play.
#[derive(Debug, Clone, Copy, PartialEq, Eq, Structural)]
pub enum Chime {
    Start,
    Stop,
}

/// How long a chime sounds, in milliseconds.
pub fn chime_duration_ms(chime: Chime) -> (ms: u64)
    ensures
        ms == 90,
{
    match chime {
        Chime::Start => 90,
        Chime::Stop => 90,
    }
}

} // verus!
