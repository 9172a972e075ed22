//! The attempt driver: how one probe result is read, and what the search
//! does next.
use vstd::prelude::*;

verus! {

/// Standard output of a decryption attempt that found no match.
pub const STDOUT_NORMAL: &'static str = "Attempting to decrypt data partition via command line.\n";

/// Text in standard output that tells of a successful decryption.
pub const STDOUT_SUCCESS: &'static str = "Data successfully decrypted";

/// How one decryption attempt ended.
#[derive(PartialEq, Eq, Structural, Clone, Copy, Debug)]
pub enum Outcome {
    /// The probe ran normally and the code was wrong.
    NoMatch,
    /// The probe decrypted the data.
    Match,
    /// The probe answered in a way that is not understood.
    Violation,
}

/// `pat` occurs in `s` as a run of consecutive characters.
pub open spec fn contains_text(s: Seq<char>, pat: Seq<char>) -> bool {
    exists|i: int| 0 <= i && i + pat.len() <= s.len() && #[trigger] s.subrange(i, i + pat.len()) == pat
}

/// The outcome of an attempt that exited successfully or not, with the
/// given standard output and standard error.
pub open spec fn outcome_of(success: bool, stdout: Seq<char>, stderr: Seq<char>) -> Outcome {
    if success && contains_text(stdout, STDOUT_SUCCESS@) && stderr.len() == 0 {
        Outcome::Match
    } else if success && stdout == STDOUT_NORMAL@ && stderr.len() == 0 {
        Outcome::NoMatch
    } else {
        Outcome::Violation
    }
}

/// Relies on std's `str::contains` with a string pattern: whether `pat`
/// occurs in `s`.
#[verifier::external_body]
fn text_contains(s: &str, pat: &str) -> (r: bool)
    ensures
        r == contains_text(s@, pat@),
{
    s.contains(pat)
}

/// Reads the result of one attempt: whether the probe exited successfully,
/// and what it wrote to standard output and standard error.
pub fn classify(success: bool, stdout: &str, stderr: &str) -> (r: Outcome)
    ensures
        r == outcome_of(success, stdout@, stderr@),
{
    if !success || !stderr.is_empty() {
        return Outcome::Violation;
    }
    if text_contains(stdout, STDOUT_SUCCESS) {
        return Outcome::Match;
    }
    let out: String = stdout.to_owned();
    let normal: String = STDOUT_NORMAL.to_owned();
    if out == normal {
        Outcome::NoMatch
    } else {
        Outcome::Violation
    }
}

/// Why a search stopped.
#[derive(PartialEq, Eq, Structural, Clone, Copy, Debug)]
pub enum Halt {
    /// The candidate at this index decrypted the data.
    Success(usize),
    /// Every candidate was tried without success.
    Exhausted,
    /// The probe's answer to the candidate at this index was not understood.
    Fault(usize),
    /// The operator stopped the search; this many candidates were tried.
    Cancelled(usize),
}

/// Where a search stands.
#[derive(PartialEq, Eq, Structural, Clone, Copy, Debug)]
pub enum Phase {
    /// The candidate at this index is to be tried next.
    Probing(usize),
    /// Waiting out the lockout window; then the candidate at this index
    /// comes.
    Pausing(usize),
    /// The search is over.
    Halted(Halt),
}

/// The state of a search over `total` candidates, with the number of
/// attempts made and of pauses taken.
#[derive(PartialEq, Eq, Structural, Clone, Copy, Debug)]
pub struct Driver {
    pub total: usize,
    pub phase: Phase,
    pub attempts: usize,
    pub pauses: usize,
}

impl Driver {
    /// The phase agrees with the counters: each attempt but the last that
    /// stopped the search was followed by a pause.
    pub open spec fn wf(self) -> bool {
        match self.phase {
            Phase::Probing(i) => i < self.total && self.attempts == i && self.pauses == i,
            Phase::Pausing(i) => 0 < i <= self.total && self.attempts == i && self.pauses == i - 1,
            Phase::Halted(Halt::Success(i)) => i < self.total && self.attempts == i + 1
                && self.pauses == i,
            Phase::Halted(Halt::Fault(i)) => i < self.total && self.attempts == i + 1
                && self.pauses == i,
            Phase::Halted(Halt::Exhausted) => self.attempts == self.total && self.pauses
                == self.total,
            Phase::Halted(Halt::Cancelled(i)) => i <= self.total && self.attempts == i
                && self.pauses <= i,
        }
    }

    /// A search over `total` candidates, about to try the first one; with
    /// none at all it is exhausted from the start.
    pub fn new(total: usize) -> (r: Driver)
        ensures
            r.wf(),
            r.total == total,
            r.attempts == 0,
            r.pauses == 0,
            r.phase == (if total == 0 {
                Phase::Halted(Halt::Exhausted)
            } else {
                Phase::Probing(0)
            }),
    {
        let phase = if total == 0 {
            Phase::Halted(Halt::Exhausted)
        } else {
            Phase::Probing(0)
        };
        Driver { total, phase, attempts: 0, pauses: 0 }
    }

    /// Whether the search is over.
    pub fn is_halted(&self) -> (r: bool)
        ensures
            r == (self.phase is Halted),
    {
        match self.phase {
            Phase::Halted(_) => true,
            _ => false,
        }
    }

    /// Takes the outcome of trying the current candidate: a match ends the
    /// search in success, an answer not understood ends it in a fault, and
    /// a wrong code leads to the mandatory pause.
    pub fn observe(&mut self, outcome: Outcome)
        requires
            old(self).wf(),
            old(self).phase is Probing,
        ensures
            final(self).wf(),
            final(self).total == old(self).total,
            final(self).attempts == old(self).attempts + 1,
            final(self).pauses == old(self).pauses,
            final(self).phase == (match outcome {
                Outcome::Match => Phase::Halted(Halt::Success(old(self).attempts)),
                Outcome::Violation => Phase::Halted(Halt::Fault(old(self).attempts)),
                Outcome::NoMatch => Phase::Pausing((old(self).attempts + 1) as usize),
            }),
    {
        let i = self.attempts;
        self.attempts = i + 1;
        self.phase = match outcome {
            Outcome::Match => Phase::Halted(Halt::Success(i)),
            Outcome::Violation => Phase::Halted(Halt::Fault(i)),
            Outcome::NoMatch => Phase::Pausing(i + 1),
        };
    }

    /// Records that the lockout window has passed: the next candidate is
    /// tried, or, with none left, the search is exhausted.
    pub fn resume(&mut self)
        requires
            old(self).wf(),
            old(self).phase is Pausing,
        ensures
            final(self).wf(),
            final(self).total == old(self).total,
            final(self).attempts == old(self).attempts,
            final(self).pauses == old(self).pauses + 1,
            final(self).phase == (if old(self).attempts < old(self).total {
                Phase::Probing(old(self).attempts)
            } else {
                Phase::Halted(Halt::Exhausted)
            }),
    {
        self.pauses = self.pauses + 1;
        self.phase = if self.attempts < self.total {
            Phase::Probing(self.attempts)
        } else {
            Phase::Halted(Halt::Exhausted)
        };
    }

    /// Stops a running search at the operator's request, between attempts;
    /// a search that is already over stays as it is.
    pub fn cancel(&mut self)
        requires
            old(self).wf(),
        ensures
            final(self).wf(),
            final(self).total == old(self).total,
            final(self).attempts == old(self).attempts,
            final(self).pauses == old(self).pauses,
            final(self).phase == (match old(self).phase {
                Phase::Halted(h) => Phase::Halted(h),
                _ => Phase::Halted(Halt::Cancelled(old(self).attempts)),
            }),
    {
        match self.phase {
            Phase::Halted(_) => {},
            _ => {
                self.phase = Phase::Halted(Halt::Cancelled(self.attempts));
            },
        }
    }

    /// The process exit status that the search's end calls for: 1 after a
    /// fault, 0 otherwise.
    pub fn exit_code(&self) -> (r: i32)
        ensures
            r == (match self.phase {
                Phase::Halted(Halt::Fault(_)) => 1i32,
                _ => 0i32,
            }),
    {
        match self.phase {
            Phase::Halted(Halt::Fault(_)) => 1,
            _ => 0,
        }
    }
}

} // verus!
