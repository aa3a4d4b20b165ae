use vstd::prelude::*;

verus! {

/// Whether the watch for a running game client is on. The watch polls until it
/// finds a client or is stopped; the caller runs the polls.
#[derive(Debug)]
pub struct Monitor {
    running: bool,
}

impl Monitor {
    pub closed spec fn is_on(&self) -> bool {
        self.running
    }

    pub fn new() -> (r: Monitor)
        ensures
            !r.is_on(),
    {
        Monitor { running: false }
    }

    /// Turns the watch on. Returns whether a polling task must be started: not
    /// when one is already running.
    pub fn start(&mut self) -> (r: bool)
        ensures
            r == !old(self).is_on(),
            final(self).is_on(),
    {
        if self.running {
            false
        } else {
            self.running = true;
            true
        }
    }

    /// Turns the watch off; a running polling task ends after its current poll.
    pub fn stop(&mut self)
        ensures
            !final(self).is_on(),
    {
        self.running = false;
    }

    pub fn is_running(&self) -> (r: bool)
        ensures
            r == self.is_on(),
    {
        self.running
    }

    /// Records the outcome of one poll. Returns whether to poll again: only while
    /// on and nothing was found. Finding a client turns the watch off.
    pub fn after_poll(&mut self, found: bool) -> (r: bool)
        ensures
            r == (old(self).is_on() && !found),
            final(self).is_on() == (old(self).is_on() && !found),
    {
        if found {
            self.running = false;
        }
        self.running
    }
}

} // verus!
