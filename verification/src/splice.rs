//! Bidirectional byte copying between two read/write pairs: what ends when.
//!
//! Bytes are copied `r1 -> w2` (forward) and `r2 -> w1` (backward) until both
//! directions are over.

use vstd::prelude::*;

verus! {

/// A direction of copying.
#[derive(Debug, Clone, Copy, PartialEq, Eq, Structural)]
pub enum Direction {
    /// From the first reader to the second writer.
    Forward,
    /// From the second reader to the first writer.
    Backward,
}

/// One of the two writers.
#[derive(Debug, Clone, Copy, PartialEq, Eq, Structural)]
pub enum Writer {
    First,
    Second,
}

/// The writer that each direction fills, and shuts down at its end, so that
/// half-closes propagate.
pub open spec fn filled_by(direction: Direction) -> Writer {
    match direction {
        Direction::Forward => Writer::Second,
        Direction::Backward => Writer::First,
    }
}

/// Copying in both directions; `Some(true)` is a direction that reached its
/// end, `Some(false)` one that failed.
#[derive(Debug, Clone, Copy)]
pub struct Splice {
    forward: Option<bool>,
    backward: Option<bool>,
}

/// How a splice ended.
#[derive(Debug, Clone, Copy, PartialEq, Eq, Structural)]
pub enum Outcome {
    /// Both directions reached their end.
    Done,
    /// This direction failed; it is the one to report.
    Failed(Direction),
}

impl Splice {
    /// How a direction ended, if it did.
    pub closed spec fn ended(&self, direction: Direction) -> Option<bool> {
        match direction {
            Direction::Forward => self.forward,
            Direction::Backward => self.backward,
        }
    }

    /// Start copying.
    pub fn new() -> (r: Splice)
        ensures
            r.ended(Direction::Forward) is None,
            r.ended(Direction::Backward) is None,
    {
        Splice { forward: None, backward: None }
    }

    /// A direction has ended: returns the writer to shut down.
    pub fn end(&mut self, direction: Direction, ok: bool) -> (r: Writer)
        ensures
            r == filled_by(direction),
            final(self).ended(direction) == Some(ok),
            forall|d: Direction| d != direction ==> final(self).ended(d) == old(self).ended(d),
    {
        match direction {
            Direction::Forward => {
                self.forward = Some(ok);
                Writer::Second
            },
            Direction::Backward => {
                self.backward = Some(ok);
                Writer::First
            },
        }
    }

    /// How the splice ended: `None` as long as a direction is still copying;
    /// a failed forward direction is reported before a failed backward one.
    pub fn outcome(&self) -> (r: Option<Outcome>)
        ensures
            r == match (self.ended(Direction::Forward), self.ended(Direction::Backward)) {
                (Some(f), Some(b)) => Some(
                    if !f {
                        Outcome::Failed(Direction::Forward)
                    } else if !b {
                        Outcome::Failed(Direction::Backward)
                    } else {
                        Outcome::Done
                    },
                ),
                _ => None,
            },
    {
        match (self.forward, self.backward) {
            (Some(f), Some(b)) => {
                if !f {
                    Some(Outcome::Failed(Direction::Forward))
                } else if !b {
                    Some(Outcome::Failed(Direction::Backward))
                } else {
                    Some(Outcome::Done)
                }
            },
            _ => None,
        }
    }
}

/// Each direction ends the writer that it fills: what the first reader has goes to
/// the second writer, and what the second has to the first.
pub proof fn directions_end_the_other_side(direction: Direction)
    ensures
        filled_by(direction) is Second <==> direction is Forward,
        filled_by(direction) is First <==> direction is Backward,
{
}

} // verus!
