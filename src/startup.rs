//! Readiness at startup: the server polls its own status endpoint a bounded
//! number of times and reports readiness to the service manager once it
//! answers.
use vstd::prelude::*;

verus! {

/// The number of probes before giving up.
pub const TRIES: u8 = 50;

/// What the poller does next.
#[derive(PartialEq, Eq, Structural, Clone, Copy, Debug)]
pub enum PollStep {
    /// Wait a second, then probe the status endpoint; this is probe number
    /// `attempt`, counting from one.
    Probe { attempt: u8 },
    /// Every probe has been made without an answer.
    GiveUp,
}

/// The count of probes made so far.
pub struct StatusPoll {
    tries: u8,
}

impl StatusPoll {
    pub closed spec fn made(&self) -> nat {
        self.tries as nat
    }

    pub fn new() -> (r: StatusPoll)
        ensures
            r.made() == 0,
    {
        StatusPoll { tries: 0 }
    }

    /// The next step: another probe while fewer than `TRIES` were made.
    pub fn next(&mut self) -> (r: PollStep)
        ensures
            old(self).made() < TRIES ==> r == (PollStep::Probe { attempt: (old(self).made() + 1) as u8 })
                && final(self).made() == old(self).made() + 1,
            old(self).made() >= TRIES ==> r == PollStep::GiveUp && final(self).made() == old(self).made(),
    {
        if self.tries < TRIES {
            self.tries = self.tries + 1;
            PollStep::Probe { attempt: self.tries }
        } else {
            PollStep::GiveUp
        }
    }
}

/// The status endpoint answered that the server is up.
pub fn server_ready(body: &str) -> (r: bool)
    ensures
        r == (body@ == "OK"@),
{
    String::from_str(body) == String::from_str("OK")
}

} // verus!
