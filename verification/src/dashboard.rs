//! The dashboard's decision core: how input events become commands, and the
//! stopwatch the second button drives.  Rendering the weight and the time on
//! the display sits above this, in unverified glue that merely formats what
//! these functions decide.  Instants are microsecond counts of the monotonic
//! uptime clock.

use vstd::prelude::*;

use crate::button::ButtonEvent;
use crate::common::{AppMessage, InputEvent};
use crate::mq::MessageProcessingStatus;

verus! {

/// A stopwatch over the monotonic clock: started at construction, stopped
/// at most once, read while running or after stopping.
pub struct Stopwatch {
    start: u64,
    end: Option<u64>,
}

impl Stopwatch {
    pub closed spec fn spec_start(&self) -> u64 {
        self.start
    }

    pub closed spec fn spec_end(&self) -> Option<u64> {
        self.end
    }

    /// The stored instants never lie in the future of `now`.
    pub open spec fn valid_at(&self, now: u64) -> bool {
        &&& self.spec_start() <= now
        &&& self.spec_end() matches Some(t) ==> self.spec_start() <= t <= now
    }

    pub fn new(now: u64) -> (r: Stopwatch)
        ensures
            r.spec_start() == now,
            r.spec_end() is None,
    {
        Stopwatch { start: now, end: None }
    }

    /// Freezes the reading at `now`; stopping an already stopped watch
    /// changes nothing.
    pub fn stop(&mut self, now: u64)
        ensures
            final(self).spec_start() == old(self).spec_start(),
            old(self).spec_end() is None ==> final(self).spec_end() == Some(now),
            old(self).spec_end() is Some ==> final(self).spec_end() == old(self).spec_end(),
    {
        if self.end.is_none() {
            self.end = Some(now);
        }
    }

    pub fn is_running(&self) -> (r: bool)
        ensures
            r == (self.spec_end() is None),
    {
        self.end.is_none()
    }

    /// The elapsed time: up to `now` while running, else up to the stop.
    pub fn read(&self, now: u64) -> (r: u64)
        requires
            self.valid_at(now),
        ensures
            self.spec_end() matches Some(t) ==> r == t - self.spec_start(),
            self.spec_end() is None ==> r == now - self.spec_start(),
    {
        let end = match self.end {
            Some(t) => t,
            None => now,
        };
        end - self.start
    }
}

/// Splits a duration in microseconds into whole minutes, the seconds within
/// the minute, and hundredths of a second within the second, as the display
/// shows them.
pub fn duration_parts(us: u64) -> (r: (u64, u64, u64))
    ensures
        r.0 == us / 60_000_000,
        r.1 == (us / 1_000_000) % 60,
        r.2 == us / 1_000 % 1_000 / 10,
{
    (us / 60_000_000, (us / 1_000_000) % 60, us / 1_000 % 1_000 / 10)
}

/// The dashboard's input-handling state: the stopwatch, if one has been
/// started since boot.
pub struct Dashboard {
    stopwatch: Option<Stopwatch>,
}

impl Dashboard {
    pub closed spec fn spec_stopwatch(&self) -> Option<Stopwatch> {
        self.stopwatch
    }

    pub fn new() -> (r: Dashboard)
        ensures
            r.spec_stopwatch() is None,
    {
        Dashboard { stopwatch: None }
    }

    /// A read-only borrow of the stopwatch, for rendering the time field.
    pub fn stopwatch(&self) -> (r: &Option<Stopwatch>)
        ensures
            *r == self.spec_stopwatch(),
    {
        &self.stopwatch
    }

    /// One message offered by the bus: a press of button A asks for a tare,
    /// a long press of button A for a calibration; a press of button B
    /// starts the stopwatch, or stops it when it is running.  The follow-up
    /// message, if any, is for the caller to enqueue.
    pub fn handle_input(&mut self, now: u64, e: &AppMessage) -> (r: (
        MessageProcessingStatus,
        Option<AppMessage>,
    ))
        ensures
            e matches AppMessage::InputEvent(ie) ==> match ie {
                InputEvent::ButtonA(be) => {
                    &&& r.0 is Processed
                    &&& r.1 == if be is Press {
                        Some(AppMessage::Tare)
                    } else {
                        Some(AppMessage::Calibrate)
                    }
                    &&& final(self).spec_stopwatch() == old(self).spec_stopwatch()
                },
                InputEvent::ButtonB(be) => if be is Press {
                    &&& r.0 is Processed
                    &&& r.1 is None
                    &&& match old(self).spec_stopwatch() {
                        Some(w) => if w.spec_end() is None {
                            final(self).spec_stopwatch() matches Some(w2) && w2.spec_start()
                                == w.spec_start() && w2.spec_end() == Some(now)
                        } else {
                            final(self).spec_stopwatch() matches Some(w2) && w2.spec_start() == now
                                && w2.spec_end() is None
                        },
                        None => final(self).spec_stopwatch() matches Some(w2) && w2.spec_start()
                            == now && w2.spec_end() is None,
                    }
                } else {
                    &&& r.0 is Ignored
                    &&& r.1 is None
                    &&& final(self).spec_stopwatch() == old(self).spec_stopwatch()
                },
            },
            !(e matches AppMessage::InputEvent(_)) ==> {
                &&& r.0 is Ignored
                &&& r.1 is None
                &&& final(self).spec_stopwatch() == old(self).spec_stopwatch()
            },
    {
        match e {
            AppMessage::InputEvent(ie) => match ie {
                InputEvent::ButtonA(be) => match be {
                    ButtonEvent::Press => (
                        MessageProcessingStatus::Processed,
                        Some(AppMessage::Tare),
                    ),
                    ButtonEvent::LongPress => (
                        MessageProcessingStatus::Processed,
                        Some(AppMessage::Calibrate),
                    ),
                },
                InputEvent::ButtonB(be) => match be {
                    ButtonEvent::Press => {
                        let running = match &self.stopwatch {
                            Some(w) => w.is_running(),
                            None => false,
                        };
                        if running {
                            match &mut self.stopwatch {
                                Some(w) => w.stop(now),
                                None => {},
                            }
                        } else {
                            self.stopwatch = Some(Stopwatch::new(now));
                        }
                        (MessageProcessingStatus::Processed, None)
                    },
                    ButtonEvent::LongPress => (MessageProcessingStatus::Ignored, None),
                },
            },
            _ => (MessageProcessingStatus::Ignored, None),
        }
    }
}

} // verus!
