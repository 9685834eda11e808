//! Debounce and long-press detection for one physical button.
//!
//! The caller samples the pin level and the monotonic clock once per polling
//! tick and hands both to `refresh`, which reports at most one event per
//! tick.  Instants and durations are microsecond counts of the monotonic
//! uptime clock, which never moves backwards.

use vstd::prelude::*;

verus! {

/// How long the button must stay down before a press counts as long,
/// in microseconds.
pub const LONG_PRESS_DURATION: u64 = 500_000;

#[derive(PartialEq, Eq, Structural, Debug)]
pub enum ButtonEvent {
    Press,
    LongPress,
}

pub struct Button {
    is_down: bool,
    down_since: Option<u64>,
}

impl Button {
    pub closed spec fn spec_is_down(&self) -> bool {
        self.is_down
    }

    /// When the press currently in progress began, if one is being timed.
    pub closed spec fn spec_down_since(&self) -> Option<u64> {
        self.down_since
    }

    /// `is_down` is the pin level sampled at construction time.
    pub fn new(is_down: bool) -> (r: Button)
        ensures
            r.spec_is_down() == is_down,
            r.spec_down_since() is None,
    {
        Button { is_down, down_since: None }
    }

    /// One debounce step: `now` is the current instant and `new_is_down` the
    /// freshly sampled pin level.  A short press is reported when the button
    /// is released before the long-press threshold; a long press is reported
    /// as soon as the threshold passes, or on a release whose whole hold
    /// reached it.
    pub fn refresh(&mut self, now: u64, new_is_down: bool) -> (r: Option<ButtonEvent>)
        requires
            old(self).spec_down_since() matches Some(t) ==> t <= now,
        ensures
            old(self).spec_is_down() != new_is_down && new_is_down ==> {
                &&& r is None
                &&& final(self).spec_is_down()
                &&& final(self).spec_down_since() == Some(now)
            },
            old(self).spec_is_down() != new_is_down && !new_is_down ==> {
                &&& !final(self).spec_is_down()
                &&& final(self).spec_down_since() is None
                &&& r == match old(self).spec_down_since() {
                    Some(t) => if now - t < LONG_PRESS_DURATION {
                        Some(ButtonEvent::Press)
                    } else {
                        Some(ButtonEvent::LongPress)
                    },
                    None => None::<ButtonEvent>,
                }
            },
            old(self).spec_is_down() == new_is_down ==> {
                &&& final(self).spec_is_down() == old(self).spec_is_down()
                &&& if old(self).spec_is_down() && (old(self).spec_down_since() matches Some(t)
                    && now - t >= LONG_PRESS_DURATION) {
                    &&& r == Some(ButtonEvent::LongPress)
                    &&& final(self).spec_down_since() is None
                } else {
                    &&& r is None
                    &&& final(self).spec_down_since() == old(self).spec_down_since()
                }
            },
    {
        let press_duration: Option<u64> = match self.down_since {
            Some(down_since) => Some(now - down_since),
            None => None,
        };
        if self.is_down != new_is_down {
            self.is_down = new_is_down;
            if new_is_down {
                self.down_since = Some(now);
                None
            } else {
                self.down_since = None;
                match press_duration {
                    Some(d) => if d < LONG_PRESS_DURATION {
                        Some(ButtonEvent::Press)
                    } else {
                        Some(ButtonEvent::LongPress)
                    },
                    None => None,
                }
            }
        } else {
            match press_duration {
                Some(d) => if self.is_down && d >= LONG_PRESS_DURATION {
                    self.down_since = None;
                    Some(ButtonEvent::LongPress)
                } else {
                    None
                },
                None => None,
            }
        }
    }
}

} // verus!
