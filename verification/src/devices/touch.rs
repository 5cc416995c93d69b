//! Touch boost: when a touch raises a cluster's frequency range.
use vstd::prelude::*;

use crate::config::data::{MPolicy, Policy};
use crate::scheduler::manager::Event;

verus! {

/// One input event as the kernel's evdev interface reports it.
#[derive(Debug, Clone, Copy, PartialEq, Eq, Structural)]
pub struct TouchEvent {
    pub tv_sec: i64,
    pub tv_usec: i64,
    pub type_: u16,
    pub code: u16,
    pub value: i32,
}

/// Whether a touch may boost: only while the screen is on and no game runs.
pub fn touch_boost_allowed(screen_on: bool, is_game: bool) -> (res: bool)
    ensures
        res == (screen_on && !is_game),
{
    screen_on && !is_game
}

/// The boost that a touch calls for on a cluster: where the cluster's
/// current maximum is below the tuning's boost threshold, both limits go to
/// the boost frequency.
pub fn boost_event(cluster: &Policy, tuning: &MPolicy, current_max: u32) -> (res: Option<Event>)
    ensures
        res == if current_max < tuning.can_boost_freq {
            Some(Event::Boost((cluster.from as u8, (tuning.boost_freq, tuning.boost_freq))))
        } else {
            None
        },
{
    if current_max < tuning.can_boost_freq {
        Some(Event::Boost((cluster.from as u8, (tuning.boost_freq, tuning.boost_freq))))
    } else {
        None
    }
}

} // verus!
